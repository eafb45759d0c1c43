//! Normalization and state for the Hyprland compositor backend.
//!
//! The wire protocol reports workspaces with 1-based identifiers, negative
//! for the compositor-internal "special" workspace, and windows with
//! hexadecimal addresses.  Normalization shifts workspace ids to 0-based,
//! filters the special workspace out entirely, decodes window addresses, and
//! keys every entity by its stable identifier.

use vstd::prelude::*;
use vstd::pervasive::arbitrary;

use crate::data::wayland_compositor::{
    MonitorConnector, WaylandCompositor, WaylandCompositorMonitor, WaylandCompositorWindow,
    WaylandCompositorWorkspace, WindowId, WorkspaceId,
};
use crate::hex::{all_hex_digits, hex_value_of, parse_hex_usize};
use crate::keyed::{
    find_keyed, has_key, insert_keyed, insert_sorted, lemma_find_keyed_has_key,
    lemma_insert_keyed, lemma_insert_keyed_elements, lemma_remove_keyed, remove_by_key,
    remove_keyed, sorted_by_key, IdKeyed,
};
use crate::util::{contains_seq, find_str, first_occurrence, lemma_first_occurrence, str_eq};

verus! {

/// A workspace reference as it appears nested in other wire entities.
///
/// The id is signed because the wire uses negative ids for the special
/// workspace.
#[derive(Debug, Clone)]
pub struct HyprlandWrappedWorkspaceId {
    pub id: isize,
}

/// A monitor as reported by the control socket.
#[derive(Debug, Clone)]
pub struct RawHyprlandMonitor {
    pub connector: String,
    pub active: bool,
    pub active_workspace: HyprlandWrappedWorkspaceId,
}

/// A normalized monitor.
#[derive(Debug, Clone)]
pub struct HyprlandMonitor {
    pub connector: MonitorConnector,
    pub active: bool,
    pub active_workspace_id: WorkspaceId,
}

/// A workspace as reported by the control socket.
#[derive(Debug, Clone)]
pub struct RawHyprlandWorkspace {
    pub id: isize,
    pub name: String,
    pub monitor_connector: String,
    pub active_window_id: String,
}

/// A normalized workspace.
#[derive(Debug, Clone)]
pub struct HyprlandWorkspace {
    pub id: WorkspaceId,
    pub name: String,
    pub monitor_connector: String,
    pub active_window_id: WindowId,
}

/// A window as reported by the control socket.
#[derive(Debug, Clone)]
pub struct RawHyprlandWindow {
    pub id: String,
    pub class: String,
    pub title: String,
    pub workspace: HyprlandWrappedWorkspaceId,
}

/// A normalized window.
#[derive(Debug, Clone)]
pub struct HyprlandWindow {
    pub id: WindowId,
    pub class: String,
    pub title: String,
    pub workspace_id: WorkspaceId,
}

impl IdKeyed for HyprlandWorkspace {
    open spec fn key(&self) -> int {
        self.id as int
    }

    fn get_key(&self) -> usize {
        self.id
    }
}

impl IdKeyed for HyprlandWindow {
    open spec fn key(&self) -> int {
        self.id as int
    }

    fn get_key(&self) -> usize {
        self.id
    }
}

/// What a 1-based wire workspace id normalizes to: one less for genuine ids,
/// and the same wrapped value the unchecked conversion produces for the
/// negative ids of the special workspace.
pub open spec fn fix_id_spec(one_based_id: int) -> int {
    if one_based_id >= 1 {
        one_based_id - 1
    } else {
        usize::MAX + one_based_id
    }
}

/// True when `s` is a window address usable on the wire: a 2-character
/// prefix, then hexadecimal digits denoting a machine-word value.
pub open spec fn window_address_ok(s: Seq<char>) -> bool {
    &&& s.len() > 2
    &&& all_hex_digits(s.skip(2))
    &&& hex_value_of(s.skip(2)) <= usize::MAX
}

impl RawHyprlandWorkspace {
    /// Converts a 1-based wire workspace id to the 0-based normalized form.
    pub fn fix_id(one_based_id: isize) -> (r: usize)
        requires
            one_based_id != 0,
        ensures
            r == fix_id_spec(one_based_id as int),
            one_based_id >= 1 ==> r == one_based_id - 1,
    {
        if one_based_id >= 1 {
            (one_based_id - 1) as usize
        } else {
            usize::MAX - ((-(one_based_id + 1)) as usize) - 1
        }
    }
}

impl RawHyprlandWindow {
    /// Decodes a window id written with a 2-character type prefix, e.g.
    /// `0x1a2b`.
    pub fn fix_id_prefixed(prefixed_hex_id: &str) -> (r: usize)
        requires
            window_address_ok(prefixed_hex_id@),
        ensures
            r == hex_value_of(prefixed_hex_id@.skip(2)),
    {
        let n = prefixed_hex_id.unicode_len();
        let digits = prefixed_hex_id.substring_char(2, n);
        assert(digits@ =~= prefixed_hex_id@.skip(2));
        match parse_hex_usize(digits) {
            Some(v) => v,
            None => 0,
        }
    }

    /// Decodes a bare hexadecimal window id, e.g. `1a2b`.
    ///
    /// Decoding a bare id and decoding the same digits behind a 2-character
    /// prefix yield the same value: both are `hex_value_of` of the digits.
    pub fn fix_id(hex_id: &str) -> (r: usize)
        requires
            hex_id@.len() > 0,
            all_hex_digits(hex_id@),
            hex_value_of(hex_id@) <= usize::MAX,
        ensures
            r == hex_value_of(hex_id@),
    {
        match parse_hex_usize(hex_id) {
            Some(v) => v,
            None => 0,
        }
    }
}

/// The normalized form of one raw monitor.
pub open spec fn process_monitor(r: RawHyprlandMonitor) -> HyprlandMonitor {
    HyprlandMonitor {
        connector: r.connector,
        active: r.active,
        active_workspace_id: fix_id_spec(r.active_workspace.id as int) as usize,
    }
}

/// The normalized form of one raw workspace (only meaningful for `id >= 1`).
pub open spec fn process_workspace(r: RawHyprlandWorkspace) -> HyprlandWorkspace {
    HyprlandWorkspace {
        id: (r.id - 1) as usize,
        name: r.name,
        monitor_connector: r.monitor_connector,
        active_window_id: hex_value_of(r.active_window_id@.skip(2)) as usize,
    }
}

/// The normalized form of one raw window (only meaningful for a window on a
/// genuine workspace).
pub open spec fn process_window(r: RawHyprlandWindow) -> HyprlandWindow {
    HyprlandWindow {
        id: hex_value_of(r.id@.skip(2)) as usize,
        class: r.class,
        title: r.title,
        workspace_id: (r.workspace.id - 1) as usize,
    }
}

/// A raw monitor the normalizer accepts: the wire never reports workspace id
/// zero.
pub open spec fn raw_monitor_ok(r: RawHyprlandMonitor) -> bool {
    r.active_workspace.id != 0
}

/// A raw workspace the normalizer accepts: nonzero id, and a decodable last
/// window address on every genuine workspace.
pub open spec fn raw_workspace_ok(r: RawHyprlandWorkspace) -> bool {
    &&& r.id != 0
    &&& r.id >= 1 ==> window_address_ok(r.active_window_id@)
}

/// A raw window the normalizer accepts: nonzero workspace id, and a
/// decodable address when it is kept.
pub open spec fn raw_window_ok(r: RawHyprlandWindow) -> bool {
    &&& r.workspace.id != 0
    &&& r.workspace.id >= 1 ==> window_address_ok(r.id@)
}

/// `s` with monitor `m` added; a monitor with the same connector is replaced
/// in place, otherwise `m` goes to the end.
pub open spec fn insert_monitor(s: Seq<HyprlandMonitor>, m: HyprlandMonitor) -> Seq<
    HyprlandMonitor,
>
    decreases s.len(),
{
    if s.len() == 0 {
        seq![m]
    } else if s[0].connector@ == m.connector@ {
        seq![m] + s.drop_first()
    } else {
        seq![s[0]] + insert_monitor(s.drop_first(), m)
    }
}

/// The normalized monitor snapshot of a raw monitor listing, keyed by
/// connector with later duplicates replacing earlier ones.
pub open spec fn postprocess_monitors_spec(raw: Seq<RawHyprlandMonitor>) -> Seq<HyprlandMonitor>
    decreases raw.len(),
{
    if raw.len() == 0 {
        Seq::<HyprlandMonitor>::empty()
    } else {
        insert_monitor(postprocess_monitors_spec(raw.drop_last()), process_monitor(raw.last()))
    }
}

/// The normalized workspace snapshot of a raw workspace listing: special
/// (negative id) workspaces are dropped, the rest are keyed by their 0-based
/// id in ascending order, later duplicates replacing earlier ones.
pub open spec fn postprocess_workspaces_spec(raw: Seq<RawHyprlandWorkspace>) -> Seq<
    HyprlandWorkspace,
>
    decreases raw.len(),
{
    if raw.len() == 0 {
        Seq::<HyprlandWorkspace>::empty()
    } else {
        let prev = postprocess_workspaces_spec(raw.drop_last());
        if raw.last().id >= 1 {
            insert_keyed(prev, process_workspace(raw.last()))
        } else {
            prev
        }
    }
}

/// The normalized window snapshot of a raw window listing: windows on the
/// special workspace are dropped, the rest are keyed by their decoded id in
/// ascending order, later duplicates replacing earlier ones.
pub open spec fn postprocess_windows_spec(raw: Seq<RawHyprlandWindow>) -> Seq<HyprlandWindow>
    decreases raw.len(),
{
    if raw.len() == 0 {
        Seq::<HyprlandWindow>::empty()
    } else {
        let prev = postprocess_windows_spec(raw.drop_last());
        if raw.last().workspace.id >= 1 {
            insert_keyed(prev, process_window(raw.last()))
        } else {
            prev
        }
    }
}

/// The workspace snapshot is always sorted by id.
pub proof fn lemma_postprocess_workspaces_sorted(raw: Seq<RawHyprlandWorkspace>)
    ensures
        sorted_by_key(postprocess_workspaces_spec(raw)),
    decreases raw.len(),
{
    if raw.len() > 0 {
        lemma_postprocess_workspaces_sorted(raw.drop_last());
        if raw.last().id >= 1 {
            lemma_insert_keyed(postprocess_workspaces_spec(raw.drop_last()), process_workspace(raw.last()));
        }
    }
}

/// The window snapshot is always sorted by id.
pub proof fn lemma_postprocess_windows_sorted(raw: Seq<RawHyprlandWindow>)
    ensures
        sorted_by_key(postprocess_windows_spec(raw)),
    decreases raw.len(),
{
    if raw.len() > 0 {
        lemma_postprocess_windows_sorted(raw.drop_last());
        if raw.last().workspace.id >= 1 {
            lemma_insert_keyed(postprocess_windows_spec(raw.drop_last()), process_window(raw.last()));
        }
    }
}

impl RawHyprlandMonitor {
    /// Normalizes a raw monitor listing.
    pub fn postprocess(raw: Vec<RawHyprlandMonitor>) -> (r: Vec<HyprlandMonitor>)
        requires
            forall|i: int| 0 <= i < raw@.len() ==> raw_monitor_ok(#[trigger] raw@[i]),
        ensures
            r@ == postprocess_monitors_spec(raw@),
    {
        let mut out: Vec<HyprlandMonitor> = Vec::new();
        let n = raw.len();
        let mut i: usize = 0;
        while i < n
            invariant
                0 <= i <= n,
                n == raw@.len(),
                forall|j: int| 0 <= j < raw@.len() ==> raw_monitor_ok(#[trigger] raw@[j]),
                out@ == postprocess_monitors_spec(raw@.take(i as int)),
            decreases n - i,
        {
            let rm = &raw[i];
            let processed = HyprlandMonitor {
                connector: rm.connector.clone(),
                active: rm.active,
                active_workspace_id: RawHyprlandWorkspace::fix_id(rm.active_workspace.id),
            };
            assert(processed == process_monitor(raw@[i as int]));
            let ghost prev = out@;
            let m = out.len();
            let mut k: usize = 0;
            while k < m && !out[k].connector.eq(&processed.connector)
                invariant
                    0 <= k <= m,
                    m == out@.len(),
                    out@ == prev,
                    forall|j: int| 0 <= j < k ==> prev[j].connector@ != processed.connector@,
                decreases m - k,
            {
                k = k + 1;
            }
            proof {
                lemma_insert_monitor_at(prev, processed, k as int);
            }
            if k < m {
                out.remove(k);
                assert(out@ =~= prev.take(k as int) + prev.skip(k as int + 1));
                out.insert(k, processed);
                assert(out@ =~= prev.take(k as int) + seq![processed] + prev.skip(k as int + 1));
            } else {
                out.push(processed);
                assert(out@ =~= prev + seq![processed]);
            }
            proof {
                assert(raw@.take(i + 1).drop_last() =~= raw@.take(i as int));
                assert(raw@.take(i + 1).last() == raw@[i as int]);
            }
            i = i + 1;
        }
        assert(raw@.take(n as int) =~= raw@);
        out
    }
}

/// Where the first `i` connectors differ from `m`'s, insertion lands at `i`.
proof fn lemma_insert_monitor_at(s: Seq<HyprlandMonitor>, m: HyprlandMonitor, i: int)
    requires
        0 <= i <= s.len(),
        forall|j: int| 0 <= j < i ==> s[j].connector@ != m.connector@,
        i < s.len() ==> s[i].connector@ == m.connector@,
    ensures
        i < s.len() ==> insert_monitor(s, m) =~= s.take(i) + seq![m] + s.skip(i + 1),
        i == s.len() ==> insert_monitor(s, m) =~= s + seq![m],
    decreases i,
{
    if i == 0 {
        if s.len() > 0 && s[0].connector@ == m.connector@ {
            assert(s.take(0) + seq![m] + s.skip(1) =~= seq![m] + s.drop_first());
        } else if s.len() == 0 {
            assert(s + seq![m] =~= seq![m]);
        } else {
            assert(s + seq![m] =~= seq![s[0]] + (s.drop_first() + seq![m]));
            lemma_insert_monitor_at(s.drop_first(), m, 0);
        }
    } else {
        let rest = s.drop_first();
        lemma_insert_monitor_at(rest, m, i - 1);
        assert(forall|j: int| 0 <= j < rest.len() ==> rest[j] == s[j + 1]);
        assert(insert_monitor(s, m) == seq![s[0]] + insert_monitor(rest, m));
        if i < s.len() {
            assert(seq![s[0]] + (rest.take(i - 1) + seq![m] + rest.skip(i)) =~= s.take(i)
                + seq![m] + s.skip(i + 1));
        } else {
            assert(seq![s[0]] + (rest + seq![m]) =~= s + seq![m]);
        }
    }
}

impl RawHyprlandWorkspace {
    /// Normalizes a raw workspace listing, dropping the special workspace.
    pub fn postprocess(raw: Vec<RawHyprlandWorkspace>) -> (r: Vec<HyprlandWorkspace>)
        requires
            forall|i: int| 0 <= i < raw@.len() ==> raw_workspace_ok(#[trigger] raw@[i]),
        ensures
            r@ == postprocess_workspaces_spec(raw@),
            sorted_by_key(r@),
    {
        let mut out: Vec<HyprlandWorkspace> = Vec::new();
        let n = raw.len();
        let mut i: usize = 0;
        while i < n
            invariant
                0 <= i <= n,
                n == raw@.len(),
                forall|j: int| 0 <= j < raw@.len() ==> raw_workspace_ok(#[trigger] raw@[j]),
                out@ == postprocess_workspaces_spec(raw@.take(i as int)),
                sorted_by_key(out@),
            decreases n - i,
        {
            let rw = &raw[i];
            proof {
                assert(raw@.take(i + 1).drop_last() =~= raw@.take(i as int));
                assert(raw@.take(i + 1).last() == raw@[i as int]);
            }
            if rw.id >= 1 {
                let wn = rw.active_window_id.unicode_len();
                let digits = rw.active_window_id.substring_char(2, wn);
                assert(digits@ =~= rw.active_window_id@.skip(2));
                let wid = match parse_hex_usize(digits) {
                    Some(v) => v,
                    None => 0,
                };
                let processed = HyprlandWorkspace {
                    id: Self::fix_id(rw.id),
                    name: rw.name.clone(),
                    monitor_connector: rw.monitor_connector.clone(),
                    active_window_id: wid,
                };
                assert(processed == process_workspace(raw@[i as int]));
                proof {
                    lemma_insert_keyed(out@, processed);
                }
                insert_sorted(&mut out, processed);
            }
            i = i + 1;
        }
        assert(raw@.take(n as int) =~= raw@);
        out
    }
}

impl RawHyprlandWindow {
    /// Normalizes a raw window listing, dropping windows on the special
    /// workspace.
    pub fn postprocess(raw: Vec<RawHyprlandWindow>) -> (r: Vec<HyprlandWindow>)
        requires
            forall|i: int| 0 <= i < raw@.len() ==> raw_window_ok(#[trigger] raw@[i]),
        ensures
            r@ == postprocess_windows_spec(raw@),
            sorted_by_key(r@),
    {
        let mut out: Vec<HyprlandWindow> = Vec::new();
        let n = raw.len();
        let mut i: usize = 0;
        while i < n
            invariant
                0 <= i <= n,
                n == raw@.len(),
                forall|j: int| 0 <= j < raw@.len() ==> raw_window_ok(#[trigger] raw@[j]),
                out@ == postprocess_windows_spec(raw@.take(i as int)),
                sorted_by_key(out@),
            decreases n - i,
        {
            let rw = &raw[i];
            proof {
                assert(raw@.take(i + 1).drop_last() =~= raw@.take(i as int));
                assert(raw@.take(i + 1).last() == raw@[i as int]);
            }
            if rw.workspace.id >= 1 {
                let processed = HyprlandWindow {
                    id: Self::fix_id_prefixed(rw.id.as_str()),
                    class: rw.class.clone(),
                    title: rw.title.clone(),
                    workspace_id: RawHyprlandWorkspace::fix_id(rw.workspace.id),
                };
                assert(processed == process_window(raw@[i as int]));
                proof {
                    lemma_insert_keyed(out@, processed);
                }
                insert_sorted(&mut out, processed);
            }
            i = i + 1;
        }
        assert(raw@.take(n as int) =~= raw@);
        out
    }
}

impl IdKeyed for (WorkspaceId, WindowId) {
    open spec fn key(&self) -> int {
        self.0 as int
    }

    fn get_key(&self) -> usize {
        self.0
    }
}

/// The first monitor with connector name `c`.
pub open spec fn find_monitor(s: Seq<HyprlandMonitor>, c: Seq<char>) -> Option<HyprlandMonitor>
    decreases s.len(),
{
    if s.len() == 0 {
        None
    } else if s[0].connector@ == c {
        Some(s[0])
    } else {
        find_monitor(s.drop_first(), c)
    }
}

/// True when some monitor is marked active.
pub open spec fn has_active(s: Seq<HyprlandMonitor>) -> bool {
    exists|i: int| 0 <= i < s.len() && s[i].active
}

/// Index of the first monitor marked active (`s.len()` when none is).
pub open spec fn first_active_index(s: Seq<HyprlandMonitor>) -> int
    decreases s.len(),
{
    if s.len() == 0 {
        0
    } else if s[0].active {
        0
    } else {
        1 + first_active_index(s.drop_first())
    }
}

/// `first_active_index` names the least active monitor when one exists.
pub proof fn lemma_first_active(s: Seq<HyprlandMonitor>)
    requires
        has_active(s),
    ensures
        0 <= first_active_index(s) < s.len(),
        s[first_active_index(s)].active,
        forall|j: int| 0 <= j < first_active_index(s) ==> !s[j].active,
    decreases s.len(),
{
    if s.len() > 0 && !s[0].active {
        let rest = s.drop_first();
        assert(forall|i: int| 0 <= i < rest.len() ==> rest[i] == #[trigger] s[i + 1]);
        assert(has_active(rest)) by {
            let i = choose|i: int| 0 <= i < s.len() && s[i].active;
            assert(rest[i - 1].active);
        }
        lemma_first_active(rest);
        assert forall|j: int| 0 <= j < first_active_index(s) implies !s[j].active by {
            if j > 0 {
                assert(!rest[j - 1].active);
            }
        }
    }
}

/// Each workspace's record of its last-activated window, in workspace order.
pub open spec fn aw_pairs(ws: Seq<HyprlandWorkspace>) -> Seq<(WorkspaceId, WindowId)> {
    ws.map_values(|w: HyprlandWorkspace| (w.id, w.active_window_id))
}

/// The normalized Hyprland state: the entity graph of the last full refresh,
/// plus the derived active pointers and the per-workspace record of last
/// active windows.
#[derive(Debug, Clone)]
pub struct HyprlandReducer {
    pub initialized: bool,
    pub monitors: Vec<HyprlandMonitor>,
    pub workspaces: Vec<HyprlandWorkspace>,
    pub windows: Vec<HyprlandWindow>,
    pub active_monitor_connector: MonitorConnector,
    pub active_workspace_id: WorkspaceId,
    pub active_window_ids: Vec<(WorkspaceId, WindowId)>,
}

/// Reduction messages for the Hyprland state.
pub enum HyprlandInput {
    /// Ask the owning task to start a full refresh; the state is unchanged.
    RequestRefresh,
    /// Replace the whole entity graph atomically.
    Refresh(Vec<HyprlandMonitor>, Vec<HyprlandWorkspace>, Vec<HyprlandWindow>),
    /// A window closed; drop it from the graph.
    CloseWindow(WindowId),
    /// A window became active on the active workspace.
    ActiveWindow(WindowId),
}

/// Observable equality of two states.
pub open spec fn state_eq(a: HyprlandReducer, b: HyprlandReducer) -> bool {
    &&& a.initialized == b.initialized
    &&& a.monitors@ == b.monitors@
    &&& a.workspaces@ == b.workspaces@
    &&& a.windows@ == b.windows@
    &&& a.active_monitor_connector@ == b.active_monitor_connector@
    &&& a.active_workspace_id == b.active_workspace_id
    &&& a.active_window_ids@ == b.active_window_ids@
}

/// Reduction messages the reducer accepts: a refresh payload must have an
/// active monitor (the wire always reports one focused monitor) and carry
/// its entities keyed in ascending id order, as normalization produces them.
pub open spec fn input_ok(input: HyprlandInput) -> bool {
    match input {
        HyprlandInput::Refresh(m, w, x) => has_active(m@) && sorted_by_key(w@) && sorted_by_key(
            x@,
        ),
        _ => true,
    }
}

/// The state a full refresh with payload `(m, w, x)` leads to, whatever the
/// prior state was.
pub open spec fn refreshed(
    m: Seq<HyprlandMonitor>,
    w: Seq<HyprlandWorkspace>,
    x: Seq<HyprlandWindow>,
    post: HyprlandReducer,
) -> bool {
    &&& post.initialized
    &&& post.monitors@ == m
    &&& post.workspaces@ == w
    &&& post.windows@ == x
    &&& post.active_monitor_connector@ == m[first_active_index(m)].connector@
    &&& post.active_workspace_id == m[first_active_index(m)].active_workspace_id
    &&& post.active_window_ids@ == aw_pairs(w)
}

/// How one reduction step relates the prior state to the next.
pub open spec fn reduce_rel(
    pre: HyprlandReducer,
    input: HyprlandInput,
    post: HyprlandReducer,
) -> bool {
    match input {
        HyprlandInput::RequestRefresh => state_eq(post, pre),
        HyprlandInput::Refresh(m, w, x) => refreshed(m@, w@, x@, post),
        HyprlandInput::ActiveWindow(wid) => if pre.initialized {
            &&& post.active_window_ids@ == insert_keyed(
                pre.active_window_ids@,
                (pre.active_workspace_id, wid),
            )
            &&& post.initialized == pre.initialized
            &&& post.monitors@ == pre.monitors@
            &&& post.workspaces@ == pre.workspaces@
            &&& post.windows@ == pre.windows@
            &&& post.active_monitor_connector@ == pre.active_monitor_connector@
            &&& post.active_workspace_id == pre.active_workspace_id
        } else {
            state_eq(post, pre)
        },
        HyprlandInput::CloseWindow(wid) => if pre.initialized {
            &&& post.windows@ == remove_keyed(pre.windows@, wid as int)
            &&& post.initialized == pre.initialized
            &&& post.monitors@ == pre.monitors@
            &&& post.workspaces@ == pre.workspaces@
            &&& post.active_monitor_connector@ == pre.active_monitor_connector@
            &&& post.active_workspace_id == pre.active_workspace_id
            &&& post.active_window_ids@ == pre.active_window_ids@
        } else {
            state_eq(post, pre)
        },
    }
}

impl HyprlandReducer {
    /// The state invariant: every keyed snapshot is in ascending key order.
    pub open spec fn wf(&self) -> bool {
        &&& sorted_by_key(self.workspaces@)
        &&& sorted_by_key(self.windows@)
        &&& sorted_by_key(self.active_window_ids@)
    }

    /// The uninitialized state: empty entity graph, no active pointers.
    pub open spec fn is_initial(&self) -> bool {
        &&& !self.initialized
        &&& self.monitors@.len() == 0
        &&& self.workspaces@.len() == 0
        &&& self.windows@.len() == 0
        &&& self.active_monitor_connector@.len() == 0
        &&& self.active_workspace_id == 0
        &&& self.active_window_ids@.len() == 0
    }

    /// The state a client starts from, before its first refresh.
    pub fn init() -> (r: Self)
        ensures
            r.is_initial(),
            r.wf(),
    {
        HyprlandReducer {
            initialized: false,
            monitors: Vec::new(),
            workspaces: Vec::new(),
            windows: Vec::new(),
            active_monitor_connector: String::new(),
            active_workspace_id: 0,
            active_window_ids: Vec::new(),
        }
    }

    /// Whether a message asks the owning task to start a full refresh
    /// instead of changing state.
    pub fn requests_refresh(input: &HyprlandInput) -> (r: bool)
        ensures
            r == (input is RequestRefresh),
    {
        match input {
            HyprlandInput::RequestRefresh => true,
            _ => false,
        }
    }

    /// Applies one reduction message.
    ///
    /// A full refresh replaces the whole graph atomically and derives the
    /// active-monitor and active-workspace pointers; the two narrow live
    /// updates touch one entry each and are discarded before the first
    /// refresh has initialized the state.  The result is `true`: every
    /// reduction yields a state worth publishing.
    pub fn reduce(&mut self, input: HyprlandInput) -> (r: bool)
        requires
            old(self).wf(),
            input_ok(input),
        ensures
            r,
            final(self).wf(),
            reduce_rel(*old(self), input, *final(self)),
    {
        match input {
            HyprlandInput::RequestRefresh => {},
            HyprlandInput::Refresh(monitors, workspaces, windows) => {
                let n = monitors.len();
                let mut idx: usize = 0;
                while idx < n && !monitors[idx].active
                    invariant
                        0 <= idx <= n,
                        n == monitors@.len(),
                        has_active(monitors@),
                        forall|j: int| 0 <= j < idx ==> !monitors@[j].active,
                    decreases n - idx,
                {
                    idx = idx + 1;
                }
                proof {
                    lemma_first_active(monitors@);
                    if idx == n {
                        let i = choose|i: int| 0 <= i < monitors@.len() && monitors@[i].active;
                        assert(!monitors@[i].active);
                    }
                }
                assert(idx == first_active_index(monitors@)) by {
                    let fai = first_active_index(monitors@);
                    if fai < idx {
                        assert(!monitors@[fai].active);
                    }
                    if fai > idx {
                        assert(!monitors@[idx as int].active);
                    }
                }
                self.active_monitor_connector = monitors[idx].connector.clone();
                self.active_workspace_id = monitors[idx].active_workspace_id;
                let wn = workspaces.len();
                let mut aw: Vec<(WorkspaceId, WindowId)> = Vec::new();
                assert(aw@ =~= aw_pairs(workspaces@.take(0)));
                let mut i: usize = 0;
                while i < wn
                    invariant
                        0 <= i <= wn,
                        wn == workspaces@.len(),
                        aw@ == aw_pairs(workspaces@.take(i as int)),
                    decreases wn - i,
                {
                    aw.push((workspaces[i].id, workspaces[i].active_window_id));
                    assert(aw@ =~= aw_pairs(workspaces@.take(i + 1)));
                    i = i + 1;
                }
                assert(workspaces@.take(wn as int) =~= workspaces@);
                assert(sorted_by_key(aw@)) by {
                    assert(forall|j: int|
                        0 <= j < aw@.len() ==> (#[trigger] aw@[j]).0 == workspaces@[j].id);
                }
                self.active_window_ids = aw;
                self.monitors = monitors;
                self.workspaces = workspaces;
                self.windows = windows;
                self.initialized = true;
            },
            HyprlandInput::ActiveWindow(wid) => {
                if self.initialized {
                    proof {
                        lemma_insert_keyed(
                            self.active_window_ids@,
                            (self.active_workspace_id, wid),
                        );
                    }
                    let ws = self.active_workspace_id;
                    insert_sorted(&mut self.active_window_ids, (ws, wid));
                }
            },
            HyprlandInput::CloseWindow(wid) => {
                if self.initialized {
                    proof {
                        lemma_remove_keyed(self.windows@, wid as int);
                    }
                    remove_by_key(&mut self.windows, wid);
                }
            },
        }
        true
    }
}

impl WaylandCompositorMonitor for HyprlandMonitor {
    open spec fn spec_connector(&self) -> Seq<char> {
        self.connector@
    }

    fn connector(&self) -> &str {
        self.connector.as_str()
    }
}

impl WaylandCompositorWorkspace for HyprlandWorkspace {
    open spec fn spec_name(&self) -> Seq<char> {
        self.name@
    }

    fn name(&self) -> &str {
        self.name.as_str()
    }
}

impl WaylandCompositorWindow for HyprlandWindow {
    open spec fn spec_class(&self) -> Seq<char> {
        self.class@
    }

    open spec fn spec_title(&self) -> Seq<char> {
        self.title@
    }

    fn class(&self) -> &str {
        self.class.as_str()
    }

    fn title(&self) -> &str {
        self.title.as_str()
    }
}

/// The workspaces of `ws` owned by the monitor with connector `c`, in order.
pub open spec fn ws_in_monitor(ws: Seq<HyprlandWorkspace>, c: Seq<char>) -> Seq<
    HyprlandWorkspace,
> {
    ws.filter(|w: HyprlandWorkspace| w.monitor_connector@ == c)
}

/// The windows of `xs` living in the workspace with id `id`, in order.
pub open spec fn win_in_workspace(xs: Seq<HyprlandWindow>, id: WorkspaceId) -> Seq<
    HyprlandWindow,
> {
    xs.filter(|x: HyprlandWindow| x.workspace_id == id)
}

/// Stepping one element to the right in a connector search.
proof fn lemma_find_monitor_skip_step(s: Seq<HyprlandMonitor>, c: Seq<char>, i: int)
    requires
        0 <= i < s.len(),
        s[i].connector@ != c,
    ensures
        find_monitor(s.skip(i), c) == find_monitor(s.skip(i + 1), c),
{
    assert(s.skip(i)[0] == s[i]);
    assert(s.skip(i).drop_first() =~= s.skip(i + 1));
}

impl WaylandCompositor for HyprlandReducer {
    type Monitor = HyprlandMonitor;

    type Workspace = HyprlandWorkspace;

    type Window = HyprlandWindow;

    open spec fn spec_monitors(&self) -> Seq<HyprlandMonitor> {
        self.monitors@
    }

    open spec fn spec_has_active_monitor(&self) -> bool {
        find_monitor(self.monitors@, self.active_monitor_connector@) is Some
    }

    open spec fn spec_active_monitor(&self) -> HyprlandMonitor {
        match find_monitor(self.monitors@, self.active_monitor_connector@) {
            Some(m) => m,
            None => arbitrary(),
        }
    }

    open spec fn spec_monitor_is_empty(&self, monitor: HyprlandMonitor) -> bool {
        false
    }

    open spec fn spec_workspaces(&self) -> Seq<HyprlandWorkspace> {
        self.workspaces@
    }

    open spec fn spec_active_workspace(&self, monitor: HyprlandMonitor) -> Option<
        HyprlandWorkspace,
    > {
        find_keyed(self.workspaces@, monitor.active_workspace_id as int)
    }

    open spec fn spec_workspace_is_empty(&self, workspace: HyprlandWorkspace) -> bool {
        forall|i: int|
            0 <= i < self.windows@.len() ==> (#[trigger] self.windows@[i]).workspace_id
                != workspace.id
    }

    open spec fn spec_workspaces_in_monitor(&self, monitor: HyprlandMonitor) -> Seq<
        HyprlandWorkspace,
    > {
        ws_in_monitor(self.workspaces@, monitor.connector@)
    }

    open spec fn spec_windows(&self) -> Seq<HyprlandWindow> {
        self.windows@
    }

    open spec fn spec_active_window(&self, workspace: HyprlandWorkspace) -> Option<
        HyprlandWindow,
    > {
        find_keyed(self.windows@, workspace.active_window_id as int)
    }

    open spec fn spec_windows_in_workspace(&self, workspace: HyprlandWorkspace) -> Seq<
        HyprlandWindow,
    > {
        win_in_workspace(self.windows@, workspace.id)
    }

    fn monitors(&self) -> &Vec<HyprlandMonitor> {
        &self.monitors
    }

    fn active_monitor(&self) -> (r: &HyprlandMonitor) {
        let n = self.monitors.len();
        assert(self.monitors@.skip(0) =~= self.monitors@);
        let mut i: usize = 0;
        while i < n
            invariant
                0 <= i <= n,
                n == self.monitors@.len(),
                find_monitor(self.monitors@, self.active_monitor_connector@) is Some,
                find_monitor(self.monitors@, self.active_monitor_connector@) == find_monitor(
                    self.monitors@.skip(i as int),
                    self.active_monitor_connector@,
                ),
            decreases n - i,
        {
            if self.monitors[i].connector.eq(&self.active_monitor_connector) {
                assert(self.monitors@.skip(i as int)[0] == self.monitors@[i as int]);
                return &self.monitors[i];
            }
            proof {
                lemma_find_monitor_skip_step(
                    self.monitors@,
                    self.active_monitor_connector@,
                    i as int,
                );
            }
            i = i + 1;
        }
        proof {
            assert(self.monitors@.skip(n as int) =~= Seq::<HyprlandMonitor>::empty());
        }
        &self.monitors[0]
    }

    fn monitor_is_empty(&self, monitor: &HyprlandMonitor) -> bool {
        false
    }

    fn workspaces(&self) -> &Vec<HyprlandWorkspace> {
        &self.workspaces
    }

    fn active_workspace<'a>(&'a self, monitor: &HyprlandMonitor) -> (r: Option<
        &'a HyprlandWorkspace,
    >) {
        crate::keyed::find_by_key(&self.workspaces, monitor.active_workspace_id)
    }

    fn workspace_is_empty(&self, workspace: &HyprlandWorkspace) -> (r: bool) {
        let n = self.windows.len();
        let mut i: usize = 0;
        while i < n
            invariant
                0 <= i <= n,
                n == self.windows@.len(),
                forall|j: int|
                    0 <= j < i ==> (#[trigger] self.windows@[j]).workspace_id != workspace.id,
            decreases n - i,
        {
            if self.windows[i].workspace_id == workspace.id {
                return false;
            }
            i = i + 1;
        }
        true
    }

    fn workspaces_in_monitor<'a>(&'a self, monitor: &HyprlandMonitor) -> (r: Vec<
        &'a HyprlandWorkspace,
    >) {
        let mut out: Vec<&'a HyprlandWorkspace> = Vec::new();
        let n = self.workspaces.len();
        proof {
            reveal(Seq::filter);
            assert(out@.map_values(|w: &HyprlandWorkspace| *w) =~= ws_in_monitor(
                self.workspaces@.take(0),
                monitor.connector@,
            ));
        }
        let mut i: usize = 0;
        while i < n
            invariant
                0 <= i <= n,
                n == self.workspaces@.len(),
                out@.map_values(|w: &HyprlandWorkspace| *w) == ws_in_monitor(
                    self.workspaces@.take(i as int),
                    monitor.connector@,
                ),
            decreases n - i,
        {
            proof {
                reveal(Seq::filter);
                assert(self.workspaces@.take(i + 1).drop_last() =~= self.workspaces@.take(
                    i as int,
                ));
                assert(self.workspaces@.take(i + 1).last() == self.workspaces@[i as int]);
            }
            if self.workspaces[i].monitor_connector.eq(&monitor.connector) {
                out.push(&self.workspaces[i]);
                assert(out@.map_values(|w: &HyprlandWorkspace| *w) =~= ws_in_monitor(
                    self.workspaces@.take(i as int),
                    monitor.connector@,
                ).push(self.workspaces@[i as int]));
            }
            i = i + 1;
        }
        assert(self.workspaces@.take(n as int) =~= self.workspaces@);
        out
    }

    fn windows(&self) -> &Vec<HyprlandWindow> {
        &self.windows
    }

    fn active_window<'a>(&'a self, workspace: &HyprlandWorkspace) -> (r: Option<
        &'a HyprlandWindow,
    >) {
        crate::keyed::find_by_key(&self.windows, workspace.active_window_id)
    }

    fn windows_in_workspace<'a>(&'a self, workspace: &HyprlandWorkspace) -> (r: Vec<
        &'a HyprlandWindow,
    >) {
        let mut out: Vec<&'a HyprlandWindow> = Vec::new();
        let n = self.windows.len();
        proof {
            reveal(Seq::filter);
            assert(out@.map_values(|w: &HyprlandWindow| *w) =~= win_in_workspace(
                self.windows@.take(0),
                workspace.id,
            ));
        }
        let mut i: usize = 0;
        while i < n
            invariant
                0 <= i <= n,
                n == self.windows@.len(),
                out@.map_values(|w: &HyprlandWindow| *w) == win_in_workspace(
                    self.windows@.take(i as int),
                    workspace.id,
                ),
            decreases n - i,
        {
            proof {
                reveal(Seq::filter);
                assert(self.windows@.take(i + 1).drop_last() =~= self.windows@.take(i as int));
                assert(self.windows@.take(i + 1).last() == self.windows@[i as int]);
            }
            if self.windows[i].workspace_id == workspace.id {
                out.push(&self.windows[i]);
                assert(out@.map_values(|w: &HyprlandWindow| *w) =~= win_in_workspace(
                    self.windows@.take(i as int),
                    workspace.id,
                ).push(self.windows@[i as int]));
            }
            i = i + 1;
        }
        assert(self.windows@.take(n as int) =~= self.windows@);
        out
    }
}

/// Why an event-socket line was rejected.
#[derive(Debug, Clone, Copy, PartialEq, Eq, Structural)]
pub enum HyprlandError {
    /// The line has no `>>` separator, or its value failed to decode.
    MalformedMessage,
}

/// What one event-socket line asks the client to do.
#[derive(Debug, Clone, Copy, PartialEq, Eq, Structural)]
pub enum HyprlandEvent {
    /// A structural change: run a full refresh.
    Refresh,
    /// Record this window as active on the active workspace.
    ActiveWindow(WindowId),
    /// Drop this window.
    CloseWindow(WindowId),
    /// An unhandled or empty notification.
    Ignore,
}

/// The key part of an event line (everything before the first `>>`).
pub open spec fn event_key(line: Seq<char>) -> Seq<char> {
    line.take(first_occurrence(line, ">>"@))
}

/// The value part of an event line (everything after the first `>>`).
pub open spec fn event_value(line: Seq<char>) -> Seq<char> {
    line.skip(first_occurrence(line, ">>"@) + 2)
}

/// Keys that signal a structural change and so a full refresh.
pub open spec fn is_refresh_key(k: Seq<char>) -> bool {
    k == "workspace"@ || k == "openwindow"@ || k == "movewindow"@
}

/// True when `v` decodes as a bare hexadecimal window id.
pub open spec fn decodable_window_id(v: Seq<char>) -> bool {
    v.len() > 0 && all_hex_digits(v) && hex_value_of(v) <= usize::MAX
}

/// What dispatching an event line yields: an error for a line without the
/// `>>` separator or with an undecodable window id, otherwise the action its
/// key calls for.
pub open spec fn dispatch_spec(line: Seq<char>) -> Result<HyprlandEvent, HyprlandError> {
    if !contains_seq(line, ">>"@) {
        Err(HyprlandError::MalformedMessage)
    } else {
        let k = event_key(line);
        let v = event_value(line);
        if is_refresh_key(k) {
            Ok(HyprlandEvent::Refresh)
        } else if k == "activewindowv2"@ && v != ","@ {
            if decodable_window_id(v) {
                Ok(HyprlandEvent::ActiveWindow(hex_value_of(v) as usize))
            } else {
                Err(HyprlandError::MalformedMessage)
            }
        } else if k == "closewindow"@ {
            if decodable_window_id(v) {
                Ok(HyprlandEvent::CloseWindow(hex_value_of(v) as usize))
            } else {
                Err(HyprlandError::MalformedMessage)
            }
        } else {
            Ok(HyprlandEvent::Ignore)
        }
    }
}

/// Splits one event-socket line at its `>>` separator and decides what it
/// asks for.  A line without the separator, or whose window id fails to
/// decode, is a malformed message: the caller treats that as a non-fatal
/// connection failure and ends the listening task.
pub fn dispatch_event_line(line: &str) -> (r: Result<HyprlandEvent, HyprlandError>)
    ensures
        r == dispatch_spec(line@),
{
    proof {
        reveal_strlit(">>");
    }
    match find_str(line, ">>") {
        None => Err(HyprlandError::MalformedMessage),
        Some(i) => {
            proof {
                lemma_first_occurrence(line@, ">>"@);
            }
            let n = line.unicode_len();
            let key = line.substring_char(0, i);
            let value = line.substring_char(i + 2, n);
            assert(key@ =~= event_key(line@));
            assert(value@ =~= event_value(line@));
            if str_eq(key, "workspace") || str_eq(key, "openwindow") || str_eq(
                key,
                "movewindow",
            ) {
                Ok(HyprlandEvent::Refresh)
            } else if str_eq(key, "activewindowv2") && !str_eq(value, ",") {
                match parse_hex_usize(value) {
                    Some(v) => Ok(HyprlandEvent::ActiveWindow(v)),
                    None => Err(HyprlandError::MalformedMessage),
                }
            } else if str_eq(key, "closewindow") {
                match parse_hex_usize(value) {
                    Some(v) => Ok(HyprlandEvent::CloseWindow(v)),
                    None => Err(HyprlandError::MalformedMessage),
                }
            } else {
                Ok(HyprlandEvent::Ignore)
            }
        },
    }
}

/// `find_monitor` answers exactly the connectors that occur, with the first
/// monitor carrying the connector.
pub proof fn lemma_find_monitor(s: Seq<HyprlandMonitor>, c: Seq<char>)
    ensures
        find_monitor(s, c) is Some <==> exists|i: int| 0 <= i < s.len() && s[i].connector@ == c,
        find_monitor(s, c) matches Some(m) ==> exists|i: int|
            0 <= i < s.len() && s[i] == m && (#[trigger] s[i]).connector@ == c && forall|j: int|
                0 <= j < i ==> s[j].connector@ != c,
    decreases s.len(),
{
    if s.len() > 0 && s[0].connector@ != c {
        let rest = s.drop_first();
        lemma_find_monitor(rest, c);
        assert(forall|i: int| 0 <= i < rest.len() ==> rest[i] == #[trigger] s[i + 1]);
        if exists|i: int| 0 <= i < s.len() && s[i].connector@ == c {
            let i = choose|i: int| 0 <= i < s.len() && s[i].connector@ == c;
            assert(rest[i - 1].connector@ == c);
        }
        match find_monitor(s, c) {
            Some(m) => {
                let i = choose|i: int|
                    0 <= i < rest.len() && rest[i] == m && (#[trigger] rest[i]).connector@ == c
                        && forall|j: int| 0 <= j < i ==> rest[j].connector@ != c;
                assert(s[i + 1] == m && s[i + 1].connector@ == c);
                assert(forall|j: int| 0 <= j < i + 1 ==> s[j].connector@ != c) by {
                    assert(forall|j: int| 1 <= j < i + 1 ==> s[j] == rest[j - 1]);
                }
            },
            None => {},
        }
    }
}

/// Decoding a window id with a 2-character prefix and decoding the bare
/// digits agree: both are the value of the hexadecimal digits.
pub proof fn lemma_window_id_decode_agrees(prefixed: Seq<char>, bare: Seq<char>)
    requires
        prefixed.skip(2) == bare,
    ensures
        hex_value_of(prefixed.skip(2)) == hex_value_of(bare),
{
}

/// Emitting the same full-refresh reduction twice in a row yields identical
/// observable state both times: the refreshed state is a function of the
/// payload alone, whatever state the reduction is applied to.
pub proof fn lemma_refresh_idempotent(
    m: Seq<HyprlandMonitor>,
    w: Seq<HyprlandWorkspace>,
    x: Seq<HyprlandWindow>,
    t1: HyprlandReducer,
    t2: HyprlandReducer,
)
    requires
        refreshed(m, w, x, t1),
        refreshed(m, w, x, t2),
    ensures
        state_eq(t1, t2),
{
}

/// A full-refresh payload with one active monitor whose active workspace and
/// active window both resolve; connectors are unique, as normalization
/// produces them.
pub open spec fn round_trip_payload(
    m: Seq<HyprlandMonitor>,
    w: Seq<HyprlandWorkspace>,
    x: Seq<HyprlandWindow>,
) -> bool {
    &&& has_active(m)
    &&& forall|i: int, j: int|
        (0 <= i < m.len() && 0 <= j < m.len() && #[trigger] m[i].active && #[trigger] m[j].active)
            ==> i == j
    &&& forall|i: int, j: int| 0 <= i < j < m.len() ==> m[i].connector@ != m[j].connector@
    &&& match find_keyed(w, m[first_active_index(m)].active_workspace_id as int) {
        Some(ws) => has_key(x, ws.active_window_id as int),
        None => false,
    }
}

/// Round trip: after a full refresh with a payload as `round_trip_payload`
/// describes, exactly one monitor is active, its active workspace resolves
/// to a present workspace, and that workspace's active window resolves to a
/// present window.
pub proof fn lemma_refresh_round_trip(
    m: Seq<HyprlandMonitor>,
    w: Seq<HyprlandWorkspace>,
    x: Seq<HyprlandWindow>,
    t: HyprlandReducer,
)
    requires
        refreshed(m, w, x, t),
        round_trip_payload(m, w, x),
    ensures
        t.spec_has_active_monitor(),
        t.spec_active_monitor().active,
        forall|i: int|
            0 <= i < t.spec_monitors().len() && (#[trigger] t.spec_monitors()[i]).active
                ==> t.spec_monitors()[i] == t.spec_active_monitor(),
        t.spec_active_workspace(t.spec_active_monitor()) is Some,
        match t.spec_active_workspace(t.spec_active_monitor()) {
            Some(ws) => t.spec_active_window(ws) is Some,
            None => false,
        },
{
    let fai = first_active_index(m);
    lemma_first_active(m);
    lemma_find_monitor(m, m[fai].connector@);
    assert(find_monitor(m, m[fai].connector@) is Some);
    match find_monitor(m, m[fai].connector@) {
        Some(mm) => {
            let i = choose|i: int|
                0 <= i < m.len() && m[i] == mm && (#[trigger] m[i]).connector@
                    == m[fai].connector@ && forall|j: int| 0 <= j < i ==> m[j].connector@
                    != m[fai].connector@;
            assert(i == fai);
            assert(t.spec_active_monitor() == m[fai]);
        },
        None => {},
    }
    match find_keyed(w, m[fai].active_workspace_id as int) {
        Some(ws) => {
            lemma_find_keyed_has_key(x, ws.active_window_id as int);
        },
        None => {},
    }
}

/// With pairwise-distinct connectors, monitor normalization is plain
/// element-wise processing, in listing order.
pub proof fn lemma_postprocess_monitors_map(raw: Seq<RawHyprlandMonitor>)
    requires
        forall|i: int, j: int| 0 <= i < j < raw.len() ==> raw[i].connector@ != raw[j].connector@,
    ensures
        postprocess_monitors_spec(raw).len() == raw.len(),
        forall|i: int|
            0 <= i < raw.len() ==> postprocess_monitors_spec(raw)[i] == process_monitor(
                #[trigger] raw[i],
            ),
    decreases raw.len(),
{
    if raw.len() > 0 {
        let prev_raw = raw.drop_last();
        assert(forall|i: int| 0 <= i < prev_raw.len() ==> prev_raw[i] == #[trigger] raw[i]);
        lemma_postprocess_monitors_map(prev_raw);
        let prev = postprocess_monitors_spec(prev_raw);
        let m = process_monitor(raw.last());
        assert forall|j: int| 0 <= j < prev.len() implies prev[j].connector@ != m.connector@ by {
            assert(prev[j] == process_monitor(raw[j]));
            assert(raw[j].connector@ != raw[raw.len() - 1].connector@);
        }
        lemma_insert_monitor_at(prev, m, prev.len() as int);
        assert(postprocess_monitors_spec(raw) =~= prev + seq![m]);
    }
}

/// With distinct genuine ids, each genuine raw workspace is found in the
/// normalized snapshot under its 0-based id, unchanged.
pub proof fn lemma_postprocess_workspaces_find(raw: Seq<RawHyprlandWorkspace>)
    requires
        forall|i: int, j: int|
            (0 <= i < j < raw.len() && #[trigger] raw[i].id >= 1 && #[trigger] raw[j].id >= 1)
                ==> raw[i].id != raw[j].id,
    ensures
        forall|i: int|
            0 <= i < raw.len() && #[trigger] raw[i].id >= 1 ==> find_keyed(
                postprocess_workspaces_spec(raw),
                raw[i].id - 1,
            ) == Some(process_workspace(raw[i])),
    decreases raw.len(),
{
    if raw.len() > 0 {
        let prev_raw = raw.drop_last();
        assert(forall|i: int| 0 <= i < prev_raw.len() ==> prev_raw[i] == #[trigger] raw[i]);
        lemma_postprocess_workspaces_find(prev_raw);
        lemma_postprocess_workspaces_sorted(prev_raw);
        let prev = postprocess_workspaces_spec(prev_raw);
        let s = postprocess_workspaces_spec(raw);
        if raw.last().id >= 1 {
            let w = process_workspace(raw.last());
            lemma_insert_keyed(prev, w);
            assert(s == insert_keyed(prev, w));
            assert forall|i: int|
                0 <= i < raw.len() && #[trigger] raw[i].id >= 1 implies find_keyed(
                s,
                raw[i].id - 1,
            ) == Some(process_workspace(raw[i])) by {
                if i == raw.len() - 1 {
                    assert(w.key() == raw.last().id - 1);
                    assert(find_keyed(s, w.key()) == Some(w));
                } else {
                    assert(raw[i].id != raw.last().id);
                    assert(raw[i].id - 1 != w.key());
                    assert(find_keyed(s, raw[i].id - 1) == find_keyed(prev, raw[i].id - 1));
                }
            }
        } else {
            assert(s == prev);
            assert forall|i: int|
                0 <= i < raw.len() && #[trigger] raw[i].id >= 1 implies find_keyed(
                s,
                raw[i].id - 1,
            ) == Some(process_workspace(raw[i])) by {
                assert(i < raw.len() - 1);
            }
        }
    }
}

/// Window normalization in one statement: a key is present in the
/// normalized snapshot exactly when some kept raw window's address decodes
/// to it.
pub proof fn lemma_window_keys(raw: Seq<RawHyprlandWindow>)
    requires
        forall|i: int| 0 <= i < raw.len() ==> raw_window_ok(#[trigger] raw[i]),
    ensures
        forall|k: int|
            has_key(postprocess_windows_spec(raw), k) <==> exists|i: int|
                0 <= i < raw.len() && #[trigger] raw[i].workspace.id >= 1 && k == hex_value_of(
                    raw[i].id@.skip(2),
                ),
    decreases raw.len(),
{
    let s = postprocess_windows_spec(raw);
    if raw.len() == 0 {
        assert(forall|k: int| !has_key(s, k));
    } else {
        let prev_raw = raw.drop_last();
        assert(forall|i: int| 0 <= i < prev_raw.len() ==> prev_raw[i] == #[trigger] raw[i]);
        let prev = postprocess_windows_spec(prev_raw);
        lemma_window_keys(prev_raw);
        lemma_postprocess_windows_sorted(prev_raw);
        if raw.last().workspace.id >= 1 {
            let w = process_window(raw.last());
            lemma_insert_keyed(prev, w);
            assert(s == insert_keyed(prev, w));
            assert forall|k: int|
                has_key(s, k) <==> (k == hex_value_of(raw.last().id@.skip(2)) || has_key(
                    prev,
                    k,
                )) by {
                lemma_find_keyed_has_key(s, k);
                lemma_find_keyed_has_key(prev, k);
                assert(w.key() == hex_value_of(raw.last().id@.skip(2)));
                assert(find_keyed(s, w.key()) == Some(w));
                if k != w.key() {
                    assert(find_keyed(s, k) == find_keyed(prev, k));
                }
            }
        } else {
            assert(s == prev);
        }
        assert forall|k: int| has_key(s, k) implies exists|i: int|
            0 <= i < raw.len() && #[trigger] raw[i].workspace.id >= 1 && k == hex_value_of(
                raw[i].id@.skip(2),
            ) by {
            if raw.last().workspace.id >= 1 && k == hex_value_of(raw.last().id@.skip(2)) {
                assert(raw[raw.len() - 1].workspace.id >= 1);
            } else {
                let i = choose|i: int|
                    0 <= i < prev_raw.len() && #[trigger] prev_raw[i].workspace.id >= 1 && k
                        == hex_value_of(prev_raw[i].id@.skip(2));
                assert(raw[i].workspace.id >= 1 && k == hex_value_of(raw[i].id@.skip(2)));
            }
        }
        assert forall|i: int|
            0 <= i < raw.len() && #[trigger] raw[i].workspace.id >= 1 implies has_key(
            s,
            hex_value_of(raw[i].id@.skip(2)) as int,
        ) by {
            if i < raw.len() - 1 {
                assert(prev_raw[i].workspace.id >= 1);
            }
        }
    }
}

/// Every normalized workspace stems from a kept (genuine) raw workspace.
pub proof fn lemma_postprocess_workspaces_membership(raw: Seq<RawHyprlandWorkspace>, k: int)
    requires
        0 <= k < postprocess_workspaces_spec(raw).len(),
    ensures
        exists|i: int|
            0 <= i < raw.len() && #[trigger] raw[i].id >= 1 && postprocess_workspaces_spec(
                raw,
            )[k] == process_workspace(raw[i]),
    decreases raw.len(),
{
    let s = postprocess_workspaces_spec(raw);
    let prev_raw = raw.drop_last();
    assert(forall|i: int| 0 <= i < prev_raw.len() ==> prev_raw[i] == #[trigger] raw[i]);
    let prev = postprocess_workspaces_spec(prev_raw);
    if raw.last().id >= 1 {
        let w = process_workspace(raw.last());
        lemma_insert_keyed_elements(prev, w, k);
        if s[k] == w {
            assert(raw[raw.len() - 1].id >= 1 && s[k] == process_workspace(raw[raw.len() - 1]));
        } else {
            let j = choose|j: int| 0 <= j < prev.len() && prev[j] == s[k];
            lemma_postprocess_workspaces_membership(prev_raw, j);
            let i = choose|i: int|
                0 <= i < prev_raw.len() && #[trigger] prev_raw[i].id >= 1 && prev[j]
                    == process_workspace(prev_raw[i]);
            assert(raw[i].id >= 1 && s[k] == process_workspace(raw[i]));
        }
    } else {
        assert(s == prev);
        lemma_postprocess_workspaces_membership(prev_raw, k);
        let i = choose|i: int|
            0 <= i < prev_raw.len() && #[trigger] prev_raw[i].id >= 1 && prev[k]
                == process_workspace(prev_raw[i]);
        assert(raw[i].id >= 1 && s[k] == process_workspace(raw[i]));
    }
}

/// Every normalized window stems from a kept raw window.
pub proof fn lemma_postprocess_windows_membership(raw: Seq<RawHyprlandWindow>, k: int)
    requires
        0 <= k < postprocess_windows_spec(raw).len(),
    ensures
        exists|i: int|
            0 <= i < raw.len() && #[trigger] raw[i].workspace.id >= 1 && postprocess_windows_spec(
                raw,
            )[k] == process_window(raw[i]),
    decreases raw.len(),
{
    let s = postprocess_windows_spec(raw);
    let prev_raw = raw.drop_last();
    assert(forall|i: int| 0 <= i < prev_raw.len() ==> prev_raw[i] == #[trigger] raw[i]);
    let prev = postprocess_windows_spec(prev_raw);
    if raw.last().workspace.id >= 1 {
        let w = process_window(raw.last());
        lemma_insert_keyed_elements(prev, w, k);
        if s[k] == w {
            assert(raw[raw.len() - 1].workspace.id >= 1 && s[k] == process_window(
                raw[raw.len() - 1],
            ));
        } else {
            let j = choose|j: int| 0 <= j < prev.len() && prev[j] == s[k];
            lemma_postprocess_windows_membership(prev_raw, j);
            let i = choose|i: int|
                0 <= i < prev_raw.len() && #[trigger] prev_raw[i].workspace.id >= 1 && prev[j]
                    == process_window(prev_raw[i]);
            assert(raw[i].workspace.id >= 1 && s[k] == process_window(raw[i]));
        }
    } else {
        assert(s == prev);
        lemma_postprocess_windows_membership(prev_raw, k);
        let i = choose|i: int|
            0 <= i < prev_raw.len() && #[trigger] prev_raw[i].workspace.id >= 1 && prev[k]
                == process_window(prev_raw[i]);
        assert(raw[i].workspace.id >= 1 && s[k] == process_window(raw[i]));
    }
}

/// Referential integrity of the normalized graph, windows: where every kept
/// raw window's workspace is among the listed raw workspaces, every
/// normalized window's `workspace_id` references a present workspace.
/// Windows whose workspace was filtered out as special were dropped, never
/// inserted.
pub proof fn lemma_windows_reference_workspaces(
    rw: Seq<RawHyprlandWorkspace>,
    rx: Seq<RawHyprlandWindow>,
)
    requires
        forall|i: int|
            (0 <= i < rx.len() && #[trigger] rx[i].workspace.id >= 1) ==> exists|j: int|
                0 <= j < rw.len() && (#[trigger] rw[j]).id == rx[i].workspace.id,
    ensures
        forall|k: int|
            0 <= k < postprocess_windows_spec(rx).len() ==> has_key(
                postprocess_workspaces_spec(rw),
                (#[trigger] postprocess_windows_spec(rx)[k]).workspace_id as int,
            ),
{
    let pw = postprocess_workspaces_spec(rw);
    let px = postprocess_windows_spec(rx);
    lemma_workspace_keys(rw);
    assert forall|k: int| 0 <= k < px.len() implies has_key(
        pw,
        (#[trigger] px[k]).workspace_id as int,
    ) by {
        lemma_postprocess_windows_membership(rx, k);
        let i = choose|i: int|
            0 <= i < rx.len() && #[trigger] rx[i].workspace.id >= 1 && px[k] == process_window(
                rx[i],
            );
        let j = choose|j: int|
            0 <= j < rw.len() && (#[trigger] rw[j]).id == rx[i].workspace.id;
        assert(rw[j].id >= 1 && px[k].workspace_id == rw[j].id - 1);
    }
}

/// Referential integrity of the normalized graph, workspaces: with
/// pairwise-distinct connectors, where every kept raw workspace's monitor is
/// among the listed raw monitors, every normalized workspace's
/// `monitor_connector` references a present monitor.
pub proof fn lemma_workspaces_reference_monitors(
    rm: Seq<RawHyprlandMonitor>,
    rw: Seq<RawHyprlandWorkspace>,
)
    requires
        forall|i: int, j: int| 0 <= i < j < rm.len() ==> rm[i].connector@ != rm[j].connector@,
        forall|i: int|
            (0 <= i < rw.len() && #[trigger] rw[i].id >= 1) ==> exists|j: int|
                0 <= j < rm.len() && (#[trigger] rm[j]).connector@ == rw[i].monitor_connector@,
    ensures
        forall|k: int|
            0 <= k < postprocess_workspaces_spec(rw).len() ==> find_monitor(
                postprocess_monitors_spec(rm),
                (#[trigger] postprocess_workspaces_spec(rw)[k]).monitor_connector@,
            ) is Some,
{
    let pm = postprocess_monitors_spec(rm);
    let pw = postprocess_workspaces_spec(rw);
    lemma_postprocess_monitors_map(rm);
    assert forall|k: int| 0 <= k < pw.len() implies find_monitor(
        pm,
        (#[trigger] pw[k]).monitor_connector@,
    ) is Some by {
        lemma_postprocess_workspaces_membership(rw, k);
        let i = choose|i: int|
            0 <= i < rw.len() && #[trigger] rw[i].id >= 1 && pw[k] == process_workspace(rw[i]);
        let j = choose|j: int|
            0 <= j < rm.len() && (#[trigger] rm[j]).connector@ == rw[i].monitor_connector@;
        lemma_find_monitor(pm, pw[k].monitor_connector@);
        assert(pm[j] == process_monitor(rm[j]));
        assert(pm[j].connector@ == pw[k].monitor_connector@);
    }
}

/// A raw payload as a synthetic round trip uses it: one active monitor,
/// distinct connectors and ids, the active monitor showing a genuine
/// present workspace whose last window is among the kept windows.
pub open spec fn raw_round_trip_payload(
    rm: Seq<RawHyprlandMonitor>,
    rw: Seq<RawHyprlandWorkspace>,
    rx: Seq<RawHyprlandWindow>,
) -> bool {
    &&& exists|i: int| 0 <= i < rm.len() && (#[trigger] rm[i]).active
    &&& forall|i: int, j: int|
        (0 <= i < rm.len() && 0 <= j < rm.len() && #[trigger] rm[i].active
            && #[trigger] rm[j].active) ==> i == j
    &&& forall|i: int, j: int| 0 <= i < j < rm.len() ==> rm[i].connector@ != rm[j].connector@
    &&& forall|i: int, j: int|
        (0 <= i < j < rw.len() && #[trigger] rw[i].id >= 1 && #[trigger] rw[j].id >= 1)
            ==> rw[i].id != rw[j].id
    &&& forall|i: int| 0 <= i < rw.len() ==> raw_workspace_ok(#[trigger] rw[i])
    &&& forall|i: int| 0 <= i < rx.len() ==> raw_window_ok(#[trigger] rx[i])
    &&& forall|a: int|
        (0 <= a < rm.len() && (#[trigger] rm[a]).active) ==> exists|wi: int|
            0 <= wi < rw.len() && (#[trigger] rw[wi]).id >= 1 && rw[wi].id
                == rm[a].active_workspace.id && exists|xi: int|
                0 <= xi < rx.len() && (#[trigger] rx[xi]).workspace.id >= 1 && hex_value_of(
                    rx[xi].id@.skip(2),
                ) == hex_value_of(rw[wi].active_window_id@.skip(2))
}

/// Round trip from the wire: normalizing a synthetic raw payload with one
/// active monitor, one active workspace on it and one active window on that
/// workspace, and applying the full refresh, leaves exactly one monitor
/// active, with its active workspace and that workspace's active window
/// both resolving in the normalized state.
pub proof fn lemma_raw_refresh_round_trip(
    rm: Seq<RawHyprlandMonitor>,
    rw: Seq<RawHyprlandWorkspace>,
    rx: Seq<RawHyprlandWindow>,
    t: HyprlandReducer,
)
    requires
        raw_round_trip_payload(rm, rw, rx),
        refreshed(
            postprocess_monitors_spec(rm),
            postprocess_workspaces_spec(rw),
            postprocess_windows_spec(rx),
            t,
        ),
    ensures
        t.spec_has_active_monitor(),
        t.spec_active_monitor().active,
        forall|i: int|
            0 <= i < t.spec_monitors().len() && (#[trigger] t.spec_monitors()[i]).active
                ==> t.spec_monitors()[i] == t.spec_active_monitor(),
        t.spec_active_workspace(t.spec_active_monitor()) is Some,
        match t.spec_active_workspace(t.spec_active_monitor()) {
            Some(ws) => t.spec_active_window(ws) is Some,
            None => false,
        },
{
    let pm = postprocess_monitors_spec(rm);
    let pw = postprocess_workspaces_spec(rw);
    let px = postprocess_windows_spec(rx);
    lemma_postprocess_monitors_map(rm);
    let a = choose|i: int| 0 <= i < rm.len() && (#[trigger] rm[i]).active;
    assert(pm[a] == process_monitor(rm[a]));
    assert(has_active(pm));
    assert forall|i: int, j: int|
        (0 <= i < pm.len() && 0 <= j < pm.len() && #[trigger] pm[i].active
            && #[trigger] pm[j].active) implies i == j by {
        assert(pm[i] == process_monitor(rm[i]));
        assert(pm[j] == process_monitor(rm[j]));
    }
    assert forall|i: int, j: int| 0 <= i < j < pm.len() implies pm[i].connector@
        != pm[j].connector@ by {
        assert(pm[i] == process_monitor(rm[i]));
        assert(pm[j] == process_monitor(rm[j]));
    }
    let fai = first_active_index(pm);
    lemma_first_active(pm);
    assert(pm[fai] == process_monitor(rm[fai]));
    assert(rm[fai].active);
    assert(fai == a);
    let wi = choose|wi: int|
        0 <= wi < rw.len() && (#[trigger] rw[wi]).id >= 1 && rw[wi].id
            == rm[a].active_workspace.id && exists|xi: int|
            0 <= xi < rx.len() && (#[trigger] rx[xi]).workspace.id >= 1 && hex_value_of(
                rx[xi].id@.skip(2),
            ) == hex_value_of(rw[wi].active_window_id@.skip(2));
    assert(pm[fai].active_workspace_id == rw[wi].id - 1);
    lemma_postprocess_workspaces_find(rw);
    let ws = process_workspace(rw[wi]);
    assert(find_keyed(pw, pm[fai].active_workspace_id as int) == Some(ws));
    let xi = choose|xi: int|
        0 <= xi < rx.len() && (#[trigger] rx[xi]).workspace.id >= 1 && hex_value_of(
            rx[xi].id@.skip(2),
        ) == hex_value_of(rw[wi].active_window_id@.skip(2));
    lemma_window_keys(rx);
    assert(window_address_ok(rw[wi].active_window_id@));
    assert(ws.active_window_id == hex_value_of(rw[wi].active_window_id@.skip(2)));
    assert(has_key(px, ws.active_window_id as int));
    assert(round_trip_payload(pm, pw, px));
    lemma_refresh_round_trip(pm, pw, px, t);
}

/// Workspace normalization in one statement: a key is present in the
/// normalized snapshot exactly when some genuine (1-based, non-special) raw
/// workspace normalizes to it, and genuine ids map to one less than their
/// wire value.  In particular no negative or special id ever yields a key.
pub proof fn lemma_workspace_keys(raw: Seq<RawHyprlandWorkspace>)
    ensures
        forall|k: int|
            has_key(postprocess_workspaces_spec(raw), k) <==> exists|i: int|
                0 <= i < raw.len() && #[trigger] raw[i].id >= 1 && k == raw[i].id - 1,
    decreases raw.len(),
{
    let s = postprocess_workspaces_spec(raw);
    if raw.len() == 0 {
        assert(forall|k: int| !has_key(s, k));
    } else {
        let prev = postprocess_workspaces_spec(raw.drop_last());
        lemma_workspace_keys(raw.drop_last());
        lemma_postprocess_workspaces_sorted(raw.drop_last());
        assert(forall|i: int| 0 <= i < raw.len() - 1 ==> raw.drop_last()[i] == #[trigger] raw[i]);
        if raw.last().id >= 1 {
            let w = process_workspace(raw.last());
            lemma_insert_keyed(prev, w);
            assert(s == insert_keyed(prev, w));
            assert forall|k: int|
                has_key(s, k) <==> (k == raw.last().id - 1 || has_key(prev, k)) by {
                lemma_find_keyed_has_key(s, k);
                lemma_find_keyed_has_key(prev, k);
                assert(w.key() == raw.last().id - 1);
                assert(find_keyed(s, w.key()) == Some(w));
                if k != w.key() {
                    assert(find_keyed(s, k) == find_keyed(prev, k));
                }
            }
        } else {
            assert(s == prev);
        }
        assert forall|k: int| has_key(s, k) implies exists|i: int|
            0 <= i < raw.len() && #[trigger] raw[i].id >= 1 && k == raw[i].id - 1 by {
            if raw.last().id >= 1 && k == raw.last().id - 1 {
                assert(raw[raw.len() - 1].id >= 1 && k == raw[raw.len() - 1].id - 1);
            } else {
                let i = choose|i: int|
                    0 <= i < raw.len() - 1 && #[trigger] raw.drop_last()[i].id >= 1 && k
                        == raw.drop_last()[i].id - 1;
                assert(raw[i].id >= 1 && k == raw[i].id - 1);
            }
        }
        assert forall|i: int|
            0 <= i < raw.len() && #[trigger] raw[i].id >= 1 implies has_key(
            s,
            raw[i].id - 1,
        ) by {
            if i < raw.len() - 1 {
                assert(raw.drop_last()[i].id >= 1);
            }
        }
    }
}

} // verus!
