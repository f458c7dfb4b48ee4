//! The audio device model behind the volume OSD.
//!
//! PipeWire reports sinks and sources as a stream of events. The model keeps
//! the nodes it has been told about, which of them is the default, and the
//! volume and mute of the active sink and source. `Model::update` answers each
//! event with the OSD it owes, if any: the first report of a value is state we
//! connected to, not a change a user made, so it never raises an OSD.
use vstd::prelude::*;

verus! {

pub type NodeId = u32;

/// One node as the model sees it.
pub struct NodeEntry {
    pub id: NodeId,
    pub volume: u32,
    pub mute: bool,
    /// Whether a volume report for this node has arrived yet.
    pub volume_seen: bool,
    /// Whether a mute report for this node has arrived yet.
    pub mute_seen: bool,
}

/// The abstract contents of a `Nodes` table.
#[verifier::ext_equal]
pub struct NodesView {
    /// Index of the default node, as last recorded.
    pub active: Option<usize>,
    pub entries: Seq<NodeEntry>,
}

/// The entry a node is seeded with before its first volume and mute reports.
pub open spec fn fresh_entry(id: NodeId) -> NodeEntry {
    NodeEntry { id, volume: 0, mute: false, volume_seen: false, mute_seen: false }
}

/// `i` is the first index whose entry carries `id`.
pub open spec fn is_first_with_id(entries: Seq<NodeEntry>, id: NodeId, i: int) -> bool {
    &&& 0 <= i < entries.len()
    &&& entries[i].id == id
    &&& forall|j: int| 0 <= j < i ==> entries[j].id != id
}

/// The index of the first entry that carries `id`, if any.
pub open spec fn find_node(entries: Seq<NodeEntry>, id: NodeId) -> Option<int> {
    if exists|i: int| is_first_with_id(entries, id, i) {
        Some(choose|i: int| is_first_with_id(entries, id, i))
    } else {
        None
    }
}

/// No two entries carry the same id.
pub open spec fn ids_distinct(entries: Seq<NodeEntry>) -> bool {
    forall|i: int, j: int| 0 <= i < entries.len() && 0 <= j < entries.len() && i != j
        ==> entries[i].id != entries[j].id
}

/// Some entry carries `id`.
pub open spec fn has_node(entries: Seq<NodeEntry>, id: NodeId) -> bool {
    exists|i: int| 0 <= i < entries.len() && entries[i].id == id
}

impl NodesView {
    /// Drop the first node with `id`; the flag says whether there was one.
    /// An active index that pointed at the dropped node is cleared; any other
    /// active index is kept as it was.
    pub open spec fn remove_node(self, id: NodeId) -> (NodesView, bool) {
        match find_node(self.entries, id) {
            Some(p) => (
                NodesView {
                    active: if self.active == Some(p as usize) {
                        None
                    } else {
                        self.active
                    },
                    entries: self.entries.remove(p),
                },
                true,
            ),
            None => (self, false),
        }
    }

    /// Append a freshly seeded node.
    pub open spec fn push_node(self, id: NodeId) -> NodesView {
        NodesView { active: self.active, entries: self.entries.push(fresh_entry(id)) }
    }
}

/// If `entries[i]` carries `id`, a first such index exists.
pub proof fn lemma_first_exists(entries: Seq<NodeEntry>, id: NodeId, i: int)
    requires
        0 <= i < entries.len(),
        entries[i].id == id,
    ensures
        exists|k: int| is_first_with_id(entries, id, k),
    decreases i,
{
    if forall|j: int| 0 <= j < i ==> entries[j].id != id {
        assert(is_first_with_id(entries, id, i));
    } else {
        let j = choose|j: int| 0 <= j < i && entries[j].id == id;
        lemma_first_exists(entries, id, j);
    }
}

/// `find_node` names the first index with `id`, and is `None` exactly when no
/// entry carries it.
pub proof fn lemma_find_node(entries: Seq<NodeEntry>, id: NodeId)
    ensures
        find_node(entries, id) is None <==> !has_node(entries, id),
        find_node(entries, id) matches Some(p) ==> is_first_with_id(entries, id, p),
{
    if has_node(entries, id) {
        let i = choose|i: int| 0 <= i < entries.len() && entries[i].id == id;
        lemma_first_exists(entries, id, i);
    }
}

/// The first index with `id` is what `find_node` returns.
pub proof fn lemma_first_is_found(entries: Seq<NodeEntry>, id: NodeId, i: int)
    requires
        is_first_with_id(entries, id, i),
    ensures
        find_node(entries, id) == Some(i),
{
    let k = choose|k: int| is_first_with_id(entries, id, k);
    assert(k == i) by {
        if k < i {
            assert(entries[k].id != id);
        } else if i < k {
            assert(entries[i].id != id);
        }
    }
}

/// The nodes of one kind (sinks or sources), stored column by column.
#[derive(Debug)]
pub struct Nodes {
    active: Option<usize>,
    mute: Vec<bool>,
    id: Vec<NodeId>,
    volume: Vec<u32>,
    /// `Event::Node` carries no volume/mute, so a node is seeded with
    /// placeholders and its real values arrive as separate events. Those first
    /// reports are state, not user action: these track which have landed, per
    /// node.
    volume_seen: Vec<bool>,
    mute_seen: Vec<bool>,
}

impl View for Nodes {
    type V = NodesView;

    closed spec fn view(&self) -> NodesView {
        NodesView {
            active: self.active,
            entries: Seq::new(
                self.id@.len(),
                |i: int|
                    NodeEntry {
                        id: self.id@[i],
                        volume: self.volume@[i],
                        mute: self.mute@[i],
                        volume_seen: self.volume_seen@[i],
                        mute_seen: self.mute_seen@[i],
                    },
            ),
        }
    }
}

impl Default for Nodes {
    fn default() -> (nodes: Self)
        ensures
            nodes.wf(),
            nodes@.active is None,
            nodes@.entries.len() == 0,
    {
        Nodes {
            active: None,
            mute: Vec::new(),
            id: Vec::new(),
            volume: Vec::new(),
            volume_seen: Vec::new(),
            mute_seen: Vec::new(),
        }
    }
}

impl Nodes {
    /// The columns all have one row per node.
    pub closed spec fn wf(&self) -> bool {
        &&& self.mute@.len() == self.id@.len()
        &&& self.volume@.len() == self.id@.len()
        &&& self.volume_seen@.len() == self.id@.len()
        &&& self.mute_seen@.len() == self.id@.len()
    }

    /// Index of the first node with `node_id`.
    fn position(&self, node_id: NodeId) -> (pos: Option<usize>)
        requires
            self.wf(),
        ensures
            match pos {
                Some(p) => p < self@.entries.len() && self@.entries[p as int].id == node_id
                    && find_node(self@.entries, node_id) == Some(p as int),
                None => find_node(self@.entries, node_id) is None,
            },
    {
        let mut i: usize = 0;
        while i < self.id.len()
            invariant
                self.wf(),
                i <= self.id@.len(),
                forall|j: int| 0 <= j < i ==> self@.entries[j].id != node_id,
            decreases self.id@.len() - i,
        {
            if self.id[i] == node_id {
                proof {
                    assert(is_first_with_id(self@.entries, node_id, i as int));
                    lemma_first_is_found(self@.entries, node_id, i as int);
                }
                return Some(i);
            }
            i += 1;
        }
        proof {
            lemma_find_node(self@.entries, node_id);
        }
        None
    }

    /// Forget the node with `node_id`. Returns whether it was known.
    pub fn remove(&mut self, node_id: u32) -> (found: bool)
        requires
            old(self).wf(),
        ensures
            final(self).wf(),
            (final(self)@, found) == old(self)@.remove_node(node_id),
    {
        let pos = match self.position(node_id) {
            Some(pos) => pos,
            None => {
                return false;
            },
        };
        self.mute.remove(pos);
        self.id.remove(pos);
        self.volume.remove(pos);
        self.volume_seen.remove(pos);
        self.mute_seen.remove(pos);
        let was_active = match self.active {
            Some(a) => a == pos,
            None => false,
        };
        if was_active {
            self.active = None;
        }
        assert(self@.entries =~= old(self)@.entries.remove(pos as int));
        true
    }

    /// Seed a node that has not reported its volume or mute yet; returns its
    /// index.
    pub fn push(&mut self, node_id: NodeId) -> (pos: usize)
        requires
            old(self).wf(),
        ensures
            final(self).wf(),
            final(self)@ == old(self)@.push_node(node_id),
            pos == old(self)@.entries.len(),
    {
        self.id.push(node_id);
        self.volume.push(0);
        self.mute.push(false);
        self.volume_seen.push(false);
        self.mute_seen.push(false);
        assert(self@.entries =~= old(self)@.entries.push(fresh_entry(node_id)));
        self.id.len() - 1
    }
}

/// The volume and mute of the default sink or source, as last announced.
#[derive(Debug, Clone, Copy, PartialEq, Eq, Structural)]
pub struct ActiveNode {
    pub volume: u32,
    pub mute: bool,
}

impl Default for ActiveNode {
    fn default() -> (node: Self)
        ensures
            node == (ActiveNode { volume: 0, mute: false }),
    {
        ActiveNode { volume: 0, mute: false }
    }
}

/// The OSD a change calls for: the new volume and mute of the default sink or
/// source.
#[derive(Debug, Clone, Copy, PartialEq, Eq, Structural)]
pub enum Response {
    SinkVolume(u32, bool),
    SourceVolume(u32, bool),
}

/// What the audio service reports, as far as the model reads it.
#[derive(Debug, Clone, Copy, PartialEq, Eq, Structural)]
pub enum AudioEvent {
    /// A node's mute changed (or was first reported).
    NodeMute(NodeId, bool),
    /// A node's volume changed (or was first reported).
    NodeVolume(NodeId, u32),
    /// The default sink is now this node.
    DefaultSink(NodeId),
    /// The default source is now this node.
    DefaultSource(NodeId),
    /// A node appeared or was described again; the flag says whether it is a
    /// sink.
    Node(NodeId, bool),
    /// A node went away.
    RemoveNode(NodeId),
    /// Anything else the service reports; the model ignores it.
    Other,
}

/// One side of the model: the sinks with the active sink, or the sources with
/// the active source.
#[verifier::ext_equal]
pub struct SideView {
    pub nodes: NodesView,
    pub active: ActiveNode,
    /// The id the service last named as default.
    pub default: Option<NodeId>,
    /// Whether a default node has been announced yet.
    pub default_seen: bool,
}

/// The abstract state of a `Model`.
#[verifier::ext_equal]
pub struct ModelView {
    pub sinks: SideView,
    pub sources: SideView,
}

/// A result is only reported once the value has been seen before: the first
/// report is the state we connected to.
pub open spec fn unless_baseline(seen_before: bool, out: (u32, bool)) -> Option<(u32, bool)> {
    if seen_before {
        Some(out)
    } else {
        None
    }
}

impl SideView {
    pub open spec fn with_nodes(self, nodes: NodesView) -> SideView {
        SideView { nodes, active: self.active, default: self.default, default_seen: self.default_seen }
    }

    /// A mute report for the node at `p`.
    pub open spec fn mute_step(self, p: int, mute: bool) -> (SideView, Option<(u32, bool)>) {
        let e = self.nodes.entries[p];
        let entries = self.nodes.entries.update(
            p,
            NodeEntry {
                id: e.id,
                volume: e.volume,
                mute: mute,
                volume_seen: e.volume_seen,
                mute_seen: true,
            },
        );
        let side = self.with_nodes(NodesView { active: self.nodes.active, entries });
        if self.nodes.active == Some(p as usize) && self.active.mute != mute {
            (
                SideView {
                    nodes: side.nodes,
                    active: ActiveNode { volume: self.active.volume, mute: mute },
                    default: self.default,
                    default_seen: self.default_seen,
                },
                unless_baseline(e.mute_seen, (e.volume, mute)),
            )
        } else {
            (side, None)
        }
    }

    /// A volume report for the node at `p`, whose id is `id`, can be applied
    /// without reading past the table: when `id` is the default and an active
    /// index is recorded, that index is in range.
    pub open spec fn volume_step_defined(self, id: NodeId) -> bool {
        (self.default == Some(id) && self.nodes.active is Some) ==> self.nodes.active->0
            < self.nodes.entries.len()
    }

    /// A volume report for the node at `p`, whose id is `id`.
    pub open spec fn volume_step(self, p: int, id: NodeId, volume: u32) -> (
        SideView,
        Option<(u32, bool)>,
    ) {
        let e = self.nodes.entries[p];
        let entries = self.nodes.entries.update(
            p,
            NodeEntry {
                id: e.id,
                volume: volume,
                mute: e.mute,
                volume_seen: true,
                mute_seen: e.mute_seen,
            },
        );
        let side = self.with_nodes(NodesView { active: self.nodes.active, entries });
        if self.default == Some(id) && self.nodes.active is Some {
            let q = self.nodes.active->0 as int;
            let now = ActiveNode { volume: entries[q].volume, mute: entries[q].mute };
            let changed = now != self.active;
            (
                SideView {
                    nodes: side.nodes,
                    active: now,
                    default: self.default,
                    default_seen: self.default_seen,
                },
                if changed {
                    unless_baseline(e.volume_seen, (now.volume, now.mute))
                } else {
                    None
                },
            )
        } else {
            (side, None)
        }
    }

    /// The service names `id` as the default node.
    pub open spec fn default_step(self, id: NodeId) -> (SideView, Option<(u32, bool)>) {
        match find_node(self.nodes.entries, id) {
            Some(p) => {
                let e = self.nodes.entries[p];
                let now = ActiveNode { volume: e.volume, mute: e.mute };
                (
                    SideView {
                        nodes: NodesView { active: Some(p as usize), entries: self.nodes.entries },
                        active: now,
                        default: Some(id),
                        default_seen: true,
                    },
                    unless_baseline(self.default_seen, (now.volume, now.mute)),
                )
            },
            None => (
                SideView {
                    nodes: self.nodes,
                    active: self.active,
                    default: Some(id),
                    default_seen: self.default_seen,
                },
                None,
            ),
        }
    }

    /// The node `id` is described: it is seeded if new, and becomes the active
    /// node if it is the default.
    pub open spec fn node_step(self, id: NodeId) -> SideView {
        let (nodes, p) = match find_node(self.nodes.entries, id) {
            Some(p) => (self.nodes, p),
            None => (self.nodes.push_node(id), self.nodes.entries.len() as int),
        };
        if self.default == Some(id) {
            SideView {
                nodes: NodesView { active: Some(p as usize), entries: nodes.entries },
                active: ActiveNode { volume: nodes.entries[p].volume, mute: nodes.entries[p].mute },
                default: self.default,
                default_seen: self.default_seen,
            }
        } else {
            self.with_nodes(nodes)
        }
    }
}

pub open spec fn sink_response(r: Option<(u32, bool)>) -> Option<Response> {
    match r {
        Some((volume, mute)) => Some(Response::SinkVolume(volume, mute)),
        None => None,
    }
}

pub open spec fn source_response(r: Option<(u32, bool)>) -> Option<Response> {
    match r {
        Some((volume, mute)) => Some(Response::SourceVolume(volume, mute)),
        None => None,
    }
}

impl ModelView {
    pub open spec fn with_sinks(self, sinks: SideView) -> ModelView {
        ModelView { sinks, sources: self.sources }
    }

    pub open spec fn with_sources(self, sources: SideView) -> ModelView {
        ModelView { sinks: self.sinks, sources }
    }

    /// No id occurs twice among the sinks, nor twice among the sources.
    pub open spec fn ids_distinct(self) -> bool {
        ids_distinct(self.sinks.nodes.entries) && ids_distinct(self.sources.nodes.entries)
    }

    /// The event can be applied without indexing past a table. The one case
    /// that cannot is a volume report for the default node while the recorded
    /// active index has gone stale past the end of the table (a node before it
    /// was removed).
    pub open spec fn accepts(self, event: AudioEvent) -> bool {
        match event {
            AudioEvent::NodeVolume(id, _) => match find_node(self.sinks.nodes.entries, id) {
                Some(_) => self.sinks.volume_step_defined(id),
                None => match find_node(self.sources.nodes.entries, id) {
                    Some(_) => self.sources.volume_step_defined(id),
                    None => true,
                },
            },
            _ => true,
        }
    }

    /// The new state and the OSD owed for an event. Mute and volume reports
    /// are looked up among the sinks first, then among the sources.
    pub open spec fn step(self, event: AudioEvent) -> (ModelView, Option<Response>) {
        match event {
            AudioEvent::NodeMute(id, mute) => match find_node(self.sinks.nodes.entries, id) {
                Some(p) => {
                    let (side, r) = self.sinks.mute_step(p, mute);
                    (self.with_sinks(side), sink_response(r))
                },
                None => match find_node(self.sources.nodes.entries, id) {
                    Some(p) => {
                        let (side, r) = self.sources.mute_step(p, mute);
                        (self.with_sources(side), source_response(r))
                    },
                    None => (self, None),
                },
            },
            AudioEvent::NodeVolume(id, volume) => match find_node(self.sinks.nodes.entries, id) {
                Some(p) => {
                    let (side, r) = self.sinks.volume_step(p, id, volume);
                    (self.with_sinks(side), sink_response(r))
                },
                None => match find_node(self.sources.nodes.entries, id) {
                    Some(p) => {
                        let (side, r) = self.sources.volume_step(p, id, volume);
                        (self.with_sources(side), source_response(r))
                    },
                    None => (self, None),
                },
            },
            AudioEvent::DefaultSink(id) => {
                let (side, r) = self.sinks.default_step(id);
                (self.with_sinks(side), sink_response(r))
            },
            AudioEvent::DefaultSource(id) => {
                let (side, r) = self.sources.default_step(id);
                (self.with_sources(side), source_response(r))
            },
            AudioEvent::Node(id, is_sink) => if is_sink {
                (self.with_sinks(self.sinks.node_step(id)), None)
            } else {
                (self.with_sources(self.sources.node_step(id)), None)
            },
            AudioEvent::RemoveNode(id) => {
                let (nodes, found) = self.sinks.nodes.remove_node(id);
                if found {
                    (self.with_sinks(self.sinks.with_nodes(nodes)), None)
                } else {
                    let (nodes, _) = self.sources.nodes.remove_node(id);
                    (self.with_sources(self.sources.with_nodes(nodes)), None)
                }
            },
            AudioEvent::Other => (self, None),
        }
    }
}

/// The state of the audio OSD: every known sink and source, and the default of
/// each.
#[derive(Debug)]
pub struct Model {
    sinks: Nodes,
    sources: Nodes,
    pub active_sink: ActiveNode,
    pub active_source: ActiveNode,
    default_sink: Option<NodeId>,
    default_source: Option<NodeId>,
    /// The first default-node assignment is the state we connected to, not a change.
    sink_default_seen: bool,
    source_default_seen: bool,
}

pub open spec fn side_of(
    nodes: NodesView,
    active: ActiveNode,
    default: Option<NodeId>,
    default_seen: bool,
) -> SideView {
    SideView { nodes, active, default, default_seen }
}

impl View for Model {
    type V = ModelView;

    closed spec fn view(&self) -> ModelView {
        ModelView {
            sinks: side_of(
                self.sinks@,
                self.active_sink,
                self.default_sink,
                self.sink_default_seen,
            ),
            sources: side_of(
                self.sources@,
                self.active_source,
                self.default_source,
                self.source_default_seen,
            ),
        }
    }
}

/// Apply a mute report to the node at `pos` of one side.
fn apply_mute(
    nodes: &mut Nodes,
    active: &mut ActiveNode,
    default: Option<NodeId>,
    default_seen: bool,
    pos: usize,
    mute: bool,
) -> (out: Option<(u32, bool)>)
    requires
        old(nodes).wf(),
        pos < old(nodes)@.entries.len(),
    ensures
        final(nodes).wf(),
        (side_of(final(nodes)@, *final(active), default, default_seen), out) == side_of(
            old(nodes)@,
            *old(active),
            default,
            default_seen,
        ).mute_step(pos as int, mute),
{
    nodes.mute.set(pos, mute);
    let seen_before = nodes.mute_seen[pos];
    nodes.mute_seen.set(pos, true);
    assert(nodes@.entries =~= side_of(old(nodes)@, *old(active), default, default_seen).mute_step(
        pos as int,
        mute,
    ).0.nodes.entries);
    let is_active = match nodes.active {
        Some(a) => a == pos,
        None => false,
    };
    if is_active && active.mute != mute {
        active.mute = mute;
        let volume = nodes.volume[pos];
        if seen_before {
            return Some((volume, mute));
        } else {
            return None;
        }
    }
    None
}

/// Apply a volume report to the node at `pos`, whose id is `node_id`, of one
/// side.
fn apply_volume(
    nodes: &mut Nodes,
    active: &mut ActiveNode,
    default: Option<NodeId>,
    default_seen: bool,
    pos: usize,
    node_id: NodeId,
    volume: u32,
) -> (out: Option<(u32, bool)>)
    requires
        old(nodes).wf(),
        pos < old(nodes)@.entries.len(),
        side_of(old(nodes)@, *old(active), default, default_seen).volume_step_defined(node_id),
    ensures
        final(nodes).wf(),
        (side_of(final(nodes)@, *final(active), default, default_seen), out) == side_of(
            old(nodes)@,
            *old(active),
            default,
            default_seen,
        ).volume_step(pos as int, node_id, volume),
{
    let ghost expected = side_of(old(nodes)@, *old(active), default, default_seen).volume_step(
        pos as int,
        node_id,
        volume,
    );
    nodes.volume.set(pos, volume);
    let seen_before = nodes.volume_seen[pos];
    nodes.volume_seen.set(pos, true);
    assert(nodes@.entries =~= expected.0.nodes.entries);
    let is_default = match default {
        Some(id) => id == node_id,
        None => false,
    };
    if is_default {
        match nodes.active {
            Some(q) => {
                let changed = active.mute != nodes.mute[q] || active.volume != nodes.volume[q];
                active.mute = nodes.mute[q];
                active.volume = nodes.volume[q];
                if !changed {
                    return None;
                }
                if seen_before {
                    return Some((active.volume, active.mute));
                } else {
                    return None;
                }
            },
            None => {},
        }
    }
    None
}

/// Record `node_id` as the default node of one side.
fn apply_default(
    nodes: &mut Nodes,
    active: &mut ActiveNode,
    default: &mut Option<NodeId>,
    default_seen: &mut bool,
    node_id: NodeId,
) -> (out: Option<(u32, bool)>)
    requires
        old(nodes).wf(),
    ensures
        final(nodes).wf(),
        (side_of(final(nodes)@, *final(active), *final(default), *final(default_seen)), out)
            == side_of(old(nodes)@, *old(active), *old(default), *old(default_seen)).default_step(
            node_id,
        ),
{
    *default = Some(node_id);
    match nodes.position(node_id) {
        Some(pos) => {
            nodes.active = Some(pos);
            active.mute = nodes.mute[pos];
            active.volume = nodes.volume[pos];
            let seen_before = *default_seen;
            *default_seen = true;
            assert(nodes@.entries =~= old(nodes)@.entries);
            if seen_before {
                Some((active.volume, active.mute))
            } else {
                None
            }
        },
        None => None,
    }
}

/// Describe `node_id` on one side: seed it if new, and make it active if it is
/// the default.
fn apply_node(
    nodes: &mut Nodes,
    active: &mut ActiveNode,
    default: Option<NodeId>,
    default_seen: bool,
    node_id: NodeId,
)
    requires
        old(nodes).wf(),
    ensures
        final(nodes).wf(),
        side_of(final(nodes)@, *final(active), default, default_seen) == side_of(
            old(nodes)@,
            *old(active),
            default,
            default_seen,
        ).node_step(node_id),
{
    let pos = match nodes.position(node_id) {
        Some(pos) => pos,
        None => nodes.push(node_id),
    };
    let is_default = match default {
        Some(id) => id == node_id,
        None => false,
    };
    assert(pos < nodes@.entries.len());
    assert(pos < nodes.id@.len());
    if is_default {
        nodes.active = Some(pos);
        active.mute = nodes.mute[pos];
        active.volume = nodes.volume[pos];
        assert(nodes@.entries =~= side_of(old(nodes)@, *old(active), default, default_seen).node_step(
            node_id,
        ).nodes.entries);
    }
}

/// Whether a volume report for `node_id` can be applied to one side.
fn side_accepts_volume(nodes: &Nodes, default: Option<NodeId>, node_id: NodeId) -> (ok: bool)
    requires
        nodes.wf(),
    ensures
        forall|active: ActiveNode, seen: bool|
            ok == #[trigger] side_of(nodes@, active, default, seen).volume_step_defined(node_id),
{
    let is_default = match default {
        Some(id) => id == node_id,
        None => false,
    };
    match nodes.active {
        Some(q) => !is_default || q < nodes.id.len(),
        None => true,
    }
}

fn as_sink_response(r: Option<(u32, bool)>) -> (res: Option<Response>)
    ensures
        res == sink_response(r),
{
    match r {
        Some((volume, mute)) => Some(Response::SinkVolume(volume, mute)),
        None => None,
    }
}

fn as_source_response(r: Option<(u32, bool)>) -> (res: Option<Response>)
    ensures
        res == source_response(r),
{
    match r {
        Some((volume, mute)) => Some(Response::SourceVolume(volume, mute)),
        None => None,
    }
}

impl Default for Model {
    fn default() -> (model: Self)
        ensures
            model.wf(),
            model@.sinks.nodes.entries.len() == 0,
            model@.sources.nodes.entries.len() == 0,
            model@.sinks.nodes.active is None,
            model@.sources.nodes.active is None,
            model@.sinks.active == (ActiveNode { volume: 0, mute: false }),
            model@.sources.active == (ActiveNode { volume: 0, mute: false }),
            model@.sinks.default is None,
            model@.sources.default is None,
            !model@.sinks.default_seen,
            !model@.sources.default_seen,
    {
        Model {
            sinks: Nodes::default(),
            sources: Nodes::default(),
            active_sink: ActiveNode::default(),
            active_source: ActiveNode::default(),
            default_sink: None,
            default_source: None,
            sink_default_seen: false,
            source_default_seen: false,
        }
    }
}

impl Model {
    /// Both tables are well formed, and no id occurs twice in either.
    pub closed spec fn wf(&self) -> bool {
        &&& self.sinks.wf()
        &&& self.sources.wf()
        &&& self@.ids_distinct()
    }

    /// Whether `update` can take this event; see `ModelView::accepts`.
    pub fn accepts(&self, event: &AudioEvent) -> (ok: bool)
        requires
            self.wf(),
        ensures
            ok == self@.accepts(*event),
    {
        match *event {
            AudioEvent::NodeVolume(node_id, _) => match self.sinks.position(node_id) {
                Some(_) => side_accepts_volume(&self.sinks, self.default_sink, node_id),
                None => match self.sources.position(node_id) {
                    Some(_) => side_accepts_volume(&self.sources, self.default_source, node_id),
                    None => true,
                },
            },
            _ => true,
        }
    }

    /// Apply one event from the audio service, and return the OSD it calls
    /// for, if any.
    pub fn update(&mut self, event: AudioEvent) -> (res: Option<Response>)
        requires
            old(self).wf(),
            old(self)@.accepts(event),
        ensures
            final(self).wf(),
            (final(self)@, res) == old(self)@.step(event),
    {
        proof {
            law_ids_stay_distinct(self@, event);
        }
        match event {
            AudioEvent::NodeMute(node_id, mute) => {
                match self.sinks.position(node_id) {
                    Some(pos) => {
                        let r = apply_mute(
                            &mut self.sinks,
                            &mut self.active_sink,
                            self.default_sink,
                            self.sink_default_seen,
                            pos,
                            mute,
                        );
                        as_sink_response(r)
                    },
                    None => match self.sources.position(node_id) {
                        Some(pos) => {
                            let r = apply_mute(
                                &mut self.sources,
                                &mut self.active_source,
                                self.default_source,
                                self.source_default_seen,
                                pos,
                                mute,
                            );
                            as_source_response(r)
                        },
                        None => None,
                    },
                }
            },
            AudioEvent::NodeVolume(node_id, volume) => {
                match self.sinks.position(node_id) {
                    Some(pos) => {
                        let r = apply_volume(
                            &mut self.sinks,
                            &mut self.active_sink,
                            self.default_sink,
                            self.sink_default_seen,
                            pos,
                            node_id,
                            volume,
                        );
                        as_sink_response(r)
                    },
                    None => match self.sources.position(node_id) {
                        Some(pos) => {
                            let r = apply_volume(
                                &mut self.sources,
                                &mut self.active_source,
                                self.default_source,
                                self.source_default_seen,
                                pos,
                                node_id,
                                volume,
                            );
                            as_source_response(r)
                        },
                        None => None,
                    },
                }
            },
            AudioEvent::DefaultSink(node_id) => {
                let r = apply_default(
                    &mut self.sinks,
                    &mut self.active_sink,
                    &mut self.default_sink,
                    &mut self.sink_default_seen,
                    node_id,
                );
                as_sink_response(r)
            },
            AudioEvent::DefaultSource(node_id) => {
                let r = apply_default(
                    &mut self.sources,
                    &mut self.active_source,
                    &mut self.default_source,
                    &mut self.source_default_seen,
                    node_id,
                );
                as_source_response(r)
            },
            AudioEvent::Node(node_id, is_sink) => {
                if is_sink {
                    apply_node(
                        &mut self.sinks,
                        &mut self.active_sink,
                        self.default_sink,
                        self.sink_default_seen,
                        node_id,
                    );
                } else {
                    apply_node(
                        &mut self.sources,
                        &mut self.active_source,
                        self.default_source,
                        self.source_default_seen,
                        node_id,
                    );
                }
                None
            },
            AudioEvent::RemoveNode(node_id) => {
                if !self.sinks.remove(node_id) {
                    self.sources.remove(node_id);
                }
                None
            },
            AudioEvent::Other => None,
        }
    }
}

/// Updating a table entry in place keeps its ids distinct when the id is kept.
proof fn lemma_update_keeps_distinct(entries: Seq<NodeEntry>, p: int, e: NodeEntry)
    requires
        ids_distinct(entries),
        0 <= p < entries.len(),
        e.id == entries[p].id,
    ensures
        ids_distinct(entries.update(p, e)),
{
}

/// Removing an entry keeps the ids distinct.
proof fn lemma_remove_keeps_distinct(entries: Seq<NodeEntry>, p: int)
    requires
        ids_distinct(entries),
        0 <= p < entries.len(),
    ensures
        ids_distinct(entries.remove(p)),
{
    let r = entries.remove(p);
    assert forall|i: int, j: int| 0 <= i < r.len() && 0 <= j < r.len() && i != j implies r[i].id
        != r[j].id by {
        let ii = if i < p {
            i
        } else {
            i + 1
        };
        let jj = if j < p {
            j
        } else {
            j + 1
        };
        assert(r[i] == entries[ii]);
        assert(r[j] == entries[jj]);
    }
}

/// Seeding an id that is not present keeps the ids distinct.
proof fn lemma_push_keeps_distinct(entries: Seq<NodeEntry>, id: NodeId)
    requires
        ids_distinct(entries),
        find_node(entries, id) is None,
    ensures
        ids_distinct(entries.push(fresh_entry(id))),
{
    lemma_find_node(entries, id);
    let r = entries.push(fresh_entry(id));
    assert forall|i: int, j: int| 0 <= i < r.len() && 0 <= j < r.len() && i != j implies r[i].id
        != r[j].id by {
        if i == entries.len() {
            assert(r[j] == entries[j]);
        } else if j == entries.len() {
            assert(r[i] == entries[i]);
        }
    }
}

proof fn lemma_side_steps_keep_distinct(side: SideView)
    requires
        ids_distinct(side.nodes.entries),
    ensures
        forall|p: int, m: bool|
            0 <= p < side.nodes.entries.len() ==> ids_distinct(
                #[trigger] side.mute_step(p, m).0.nodes.entries,
            ),
        forall|p: int, id: NodeId, v: u32|
            0 <= p < side.nodes.entries.len() ==> ids_distinct(
                #[trigger] side.volume_step(p, id, v).0.nodes.entries,
            ),
        forall|id: NodeId| ids_distinct(#[trigger] side.default_step(id).0.nodes.entries),
        forall|id: NodeId| ids_distinct(#[trigger] side.node_step(id).nodes.entries),
        forall|id: NodeId| ids_distinct(#[trigger] side.nodes.remove_node(id).0.entries),
{
    assert forall|p: int, m: bool| 0 <= p < side.nodes.entries.len() implies ids_distinct(
        #[trigger] side.mute_step(p, m).0.nodes.entries,
    ) by {
        let e = side.nodes.entries[p];
        lemma_update_keeps_distinct(
            side.nodes.entries,
            p,
            NodeEntry {
                id: e.id,
                volume: e.volume,
                mute: m,
                volume_seen: e.volume_seen,
                mute_seen: true,
            },
        );
    }
    assert forall|p: int, id: NodeId, v: u32| 0 <= p < side.nodes.entries.len() implies ids_distinct(
        #[trigger] side.volume_step(p, id, v).0.nodes.entries,
    ) by {
        let e = side.nodes.entries[p];
        lemma_update_keeps_distinct(
            side.nodes.entries,
            p,
            NodeEntry {
                id: e.id,
                volume: v,
                mute: e.mute,
                volume_seen: true,
                mute_seen: e.mute_seen,
            },
        );
    }
    assert forall|id: NodeId| ids_distinct(#[trigger] side.node_step(id).nodes.entries) by {
        if find_node(side.nodes.entries, id) is None {
            lemma_push_keeps_distinct(side.nodes.entries, id);
        }
    }
    assert forall|id: NodeId| ids_distinct(#[trigger] side.nodes.remove_node(id).0.entries) by {
        lemma_find_node(side.nodes.entries, id);
        if let Some(p) = find_node(side.nodes.entries, id) {
            lemma_remove_keeps_distinct(side.nodes.entries, p);
        }
    }
}

/// Every event keeps the ids of each side distinct.
pub proof fn law_ids_stay_distinct(m: ModelView, event: AudioEvent)
    requires
        m.ids_distinct(),
    ensures
        m.step(event).0.ids_distinct(),
{
    lemma_side_steps_keep_distinct(m.sinks);
    lemma_side_steps_keep_distinct(m.sources);
    match event {
        AudioEvent::NodeMute(id, _) | AudioEvent::NodeVolume(id, _) => {
            lemma_find_node(m.sinks.nodes.entries, id);
            lemma_find_node(m.sources.nodes.entries, id);
        },
        _ => {},
    }
}

/// The node a mute or volume report for `id` is applied to: the first sink
/// with that id, or else the first source with it.
pub open spec fn reported_entry(m: ModelView, id: NodeId) -> Option<NodeEntry> {
    match find_node(m.sinks.nodes.entries, id) {
        Some(p) => Some(m.sinks.nodes.entries[p]),
        None => match find_node(m.sources.nodes.entries, id) {
            Some(p) => Some(m.sources.nodes.entries[p]),
            None => None,
        },
    }
}

/// A node's first mute report is state we connected to, not a user action:
/// it never raises an OSD.
pub proof fn law_first_mute_report_is_silent(m: ModelView, id: NodeId, mute: bool)
    requires
        reported_entry(m, id) matches Some(e) && !e.mute_seen,
    ensures
        m.step(AudioEvent::NodeMute(id, mute)).1 is None,
{
}

/// A node's first volume report is state we connected to, not a user action:
/// it never raises an OSD.
pub proof fn law_first_volume_report_is_silent(m: ModelView, id: NodeId, volume: u32)
    requires
        reported_entry(m, id) matches Some(e) && !e.volume_seen,
    ensures
        m.step(AudioEvent::NodeVolume(id, volume)).1 is None,
{
}

/// The first default sink and the first default source named after connecting
/// are the state we connected to: they raise no OSD.
pub proof fn law_first_default_is_silent(m: ModelView, id: NodeId)
    ensures
        !m.sinks.default_seen ==> m.step(AudioEvent::DefaultSink(id)).1 is None,
        !m.sources.default_seen ==> m.step(AudioEvent::DefaultSource(id)).1 is None,
{
}

/// The node whose values an OSD shows, after the step, on one side: the
/// active node holds exactly the volume and mute shown, and the active mute is
/// the one shown.
pub open spec fn shows_active_node(side: SideView, volume: u32, mute: bool) -> bool {
    &&& side.nodes.active matches Some(q) && q < side.nodes.entries.len()
    &&& side.nodes.entries[side.nodes.active->0 as int].volume == volume
    &&& side.nodes.entries[side.nodes.active->0 as int].mute == mute
    &&& side.active.mute == mute
}

/// An OSD always shows the current volume and mute of the active sink or
/// source.
pub proof fn law_response_shows_active_node(m: ModelView, event: AudioEvent)
    requires
        m.accepts(event),
        m.sinks.nodes.entries.len() <= usize::MAX,
        m.sources.nodes.entries.len() <= usize::MAX,
    ensures
        m.step(event).1 matches Some(Response::SinkVolume(volume, mute)) ==> shows_active_node(
            m.step(event).0.sinks,
            volume,
            mute,
        ),
        m.step(event).1 matches Some(Response::SourceVolume(volume, mute)) ==> shows_active_node(
            m.step(event).0.sources,
            volume,
            mute,
        ),
{
    match event {
        AudioEvent::NodeMute(id, mute) => {
            lemma_find_node(m.sinks.nodes.entries, id);
            lemma_find_node(m.sources.nodes.entries, id);
            if let Some(p) = find_node(m.sinks.nodes.entries, id) {
                lemma_mute_step_shows(m.sinks, p, mute);
            } else if let Some(p) = find_node(m.sources.nodes.entries, id) {
                lemma_mute_step_shows(m.sources, p, mute);
            }
        },
        AudioEvent::NodeVolume(id, volume) => {
            lemma_find_node(m.sinks.nodes.entries, id);
            lemma_find_node(m.sources.nodes.entries, id);
            if let Some(p) = find_node(m.sinks.nodes.entries, id) {
                lemma_volume_step_shows(m.sinks, p, id, volume);
            } else if let Some(p) = find_node(m.sources.nodes.entries, id) {
                lemma_volume_step_shows(m.sources, p, id, volume);
            }
        },
        AudioEvent::DefaultSink(id) => {
            lemma_find_node(m.sinks.nodes.entries, id);
        },
        AudioEvent::DefaultSource(id) => {
            lemma_find_node(m.sources.nodes.entries, id);
        },
        _ => {},
    }
}

proof fn lemma_mute_step_shows(side: SideView, p: int, mute: bool)
    requires
        0 <= p < side.nodes.entries.len() <= usize::MAX,
    ensures
        side.mute_step(p, mute).1 matches Some((v, mu)) ==> shows_active_node(
            side.mute_step(p, mute).0,
            v,
            mu,
        ),
{
    let after = side.mute_step(p, mute).0;
    assert(after.nodes.entries.len() == side.nodes.entries.len());
    if side.mute_step(p, mute).1 is Some {
        assert(after.nodes.active == Some(p as usize));
        assert(after.nodes.entries[p].volume == side.nodes.entries[p].volume);
    }
}

proof fn lemma_volume_step_shows(side: SideView, p: int, id: NodeId, volume: u32)
    requires
        0 <= p < side.nodes.entries.len(),
        side.volume_step_defined(id),
    ensures
        side.volume_step(p, id, volume).1 matches Some((v, mute)) ==> shows_active_node(
            side.volume_step(p, id, volume).0,
            v,
            mute,
        ),
{
    let after = side.volume_step(p, id, volume).0;
    assert(after.nodes.entries.len() == side.nodes.entries.len());
}

/// A volume report that leaves the active node as it was raises no OSD.
pub proof fn law_unchanged_volume_is_silent(m: ModelView, id: NodeId, volume: u32)
    ensures
        m.step(AudioEvent::NodeVolume(id, volume)).1 is Some ==> {
            ||| m.step(AudioEvent::NodeVolume(id, volume)).0.sinks.active != m.sinks.active
            ||| m.step(AudioEvent::NodeVolume(id, volume)).0.sources.active != m.sources.active
        },
{
}

/// Nodes appearing, being described or going away never raise an OSD.
pub proof fn law_node_events_are_silent(m: ModelView, id: NodeId, is_sink: bool)
    ensures
        m.step(AudioEvent::Node(id, is_sink)).1 is None,
        m.step(AudioEvent::RemoveNode(id)).1 is None,
        m.step(AudioEvent::Other) == (m, None::<Response>),
{
}

/// Removing a node that was just seeded gives back the table as it was, as
/// long as no stale active index pointed at the seeded row.
pub proof fn law_remove_undoes_push(n: NodesView, id: NodeId)
    requires
        !has_node(n.entries, id),
        n.active != Some(n.entries.len() as usize),
    ensures
        n.push_node(id).remove_node(id) == (n, true),
{
    let pushed = n.push_node(id);
    lemma_find_node(n.entries, id);
    assert(is_first_with_id(pushed.entries, id, n.entries.len() as int));
    lemma_first_is_found(pushed.entries, id, n.entries.len() as int);
    assert(pushed.entries.remove(n.entries.len() as int) =~= n.entries);
}

/// When ids are distinct, a removed node is gone from the table.
pub proof fn law_removed_node_is_gone(n: NodesView, id: NodeId)
    requires
        ids_distinct(n.entries),
    ensures
        !has_node(n.remove_node(id).0.entries, id),
        n.remove_node(id).1 == has_node(n.entries, id),
{
    lemma_find_node(n.entries, id);
    if let Some(p) = find_node(n.entries, id) {
        let r = n.entries.remove(p);
        assert forall|i: int| 0 <= i < r.len() implies r[i].id != id by {
            if i < p {
                assert(r[i] == n.entries[i]);
            } else {
                assert(r[i] == n.entries[i + 1]);
            }
        }
    }
}

/// `p` is the first index of `entries` whose node carries `id`.
pub open spec fn first_at(entries: Seq<NodeEntry>, id: NodeId, p: usize) -> bool {
    &&& p < entries.len()
    &&& entries[p as int].id == id
    &&& forall|j: int| 0 <= j < p ==> entries[j].id != id
}

/// No node of `entries` carries `id`.
pub open spec fn absent(entries: Seq<NodeEntry>, id: NodeId) -> bool {
    forall|j: int| 0 <= j < entries.len() ==> entries[j].id != id
}

proof fn lemma_found_at(entries: Seq<NodeEntry>, id: NodeId, p: usize)
    requires
        first_at(entries, id, p),
    ensures
        find_node(entries, id) == Some(p as int),
{
    assert(is_first_with_id(entries, id, p as int));
    lemma_first_is_found(entries, id, p as int);
}

proof fn lemma_absent(entries: Seq<NodeEntry>, id: NodeId)
    requires
        absent(entries, id),
    ensures
        find_node(entries, id) is None,
{
    lemma_find_node(entries, id);
}

/// Removing node `id`, found first at `p`, drops that row and clears the
/// active index exactly when it pointed at that row; the removal is reported.
pub proof fn law_nodes_remove_found(n: NodesView, id: NodeId, p: usize)
    requires
        first_at(n.entries, id, p),
    ensures
        n.remove_node(id).1,
        n.remove_node(id).0.entries == n.entries.remove(p as int),
        n.active == Some(p) ==> n.remove_node(id).0.active is None,
        n.active != Some(p) ==> n.remove_node(id).0.active == n.active,
{
    lemma_found_at(n.entries, id, p);
}

/// Removing a node that is not there changes nothing and reports so.
pub proof fn law_nodes_remove_absent(n: NodesView, id: NodeId)
    requires
        absent(n.entries, id),
    ensures
        n.remove_node(id) == (n, false),
{
    lemma_absent(n.entries, id);
}

/// Seeding a node appends a row with its id, volume 0, unmuted, and neither
/// value reported yet; the active index is kept.
pub proof fn law_nodes_push(n: NodesView, id: NodeId)
    ensures
        n.push_node(id).entries == n.entries.push(
            NodeEntry { id, volume: 0, mute: false, volume_seen: false, mute_seen: false },
        ),
        n.push_node(id).active == n.active,
{
}

/// A mute report for a sink records the mute; when the sink is the active
/// one and its mute changes, the active sink takes the new mute and, unless
/// this is the node's first mute report, the OSD shows the node's volume
/// with the new mute. Sources are untouched.
pub proof fn law_sink_mute(m: ModelView, id: NodeId, mute: bool, p: usize)
    requires
        first_at(m.sinks.nodes.entries, id, p),
    ensures
        ({
            let e = m.sinks.nodes.entries[p as int];
            let (m2, r) = m.step(AudioEvent::NodeMute(id, mute));
            &&& m2.sources == m.sources
            &&& m2.sinks.nodes.entries == m.sinks.nodes.entries.update(
                p as int,
                NodeEntry {
                    id,
                    volume: e.volume,
                    mute,
                    volume_seen: e.volume_seen,
                    mute_seen: true,
                },
            )
            &&& m2.sinks.nodes.active == m.sinks.nodes.active
            &&& m2.sinks.default == m.sinks.default
            &&& m2.sinks.default_seen == m.sinks.default_seen
            &&& if m.sinks.nodes.active == Some(p) && m.sinks.active.mute != mute {
                &&& m2.sinks.active == ActiveNode { volume: m.sinks.active.volume, mute }
                &&& r == if e.mute_seen {
                    Some(Response::SinkVolume(e.volume, mute))
                } else {
                    None
                }
            } else {
                m2.sinks.active == m.sinks.active && r is None
            }
        }),
{
    lemma_found_at(m.sinks.nodes.entries, id, p);
}

/// A mute report for a source that is not also a sink records the mute; when
/// the source is the active one and its mute changes, the active source takes
/// the new mute and, unless this is the node's first mute report, the OSD
/// shows the node's volume with the new mute. Sinks are untouched.
pub proof fn law_source_mute(m: ModelView, id: NodeId, mute: bool, p: usize)
    requires
        absent(m.sinks.nodes.entries, id),
        first_at(m.sources.nodes.entries, id, p),
    ensures
        ({
            let e = m.sources.nodes.entries[p as int];
            let (m2, r) = m.step(AudioEvent::NodeMute(id, mute));
            &&& m2.sinks == m.sinks
            &&& m2.sources.nodes.entries == m.sources.nodes.entries.update(
                p as int,
                NodeEntry {
                    id,
                    volume: e.volume,
                    mute,
                    volume_seen: e.volume_seen,
                    mute_seen: true,
                },
            )
            &&& m2.sources.nodes.active == m.sources.nodes.active
            &&& m2.sources.default == m.sources.default
            &&& m2.sources.default_seen == m.sources.default_seen
            &&& if m.sources.nodes.active == Some(p) && m.sources.active.mute != mute {
                &&& m2.sources.active == ActiveNode { volume: m.sources.active.volume, mute }
                &&& r == if e.mute_seen {
                    Some(Response::SourceVolume(e.volume, mute))
                } else {
                    None
                }
            } else {
                m2.sources.active == m.sources.active && r is None
            }
        }),
{
    lemma_absent(m.sinks.nodes.entries, id);
    lemma_found_at(m.sources.nodes.entries, id, p);
}

/// Mute and volume reports for a node that is neither a sink nor a source
/// change nothing and raise no OSD.
pub proof fn law_unknown_node_reports(m: ModelView, id: NodeId, mute: bool, volume: u32)
    requires
        absent(m.sinks.nodes.entries, id),
        absent(m.sources.nodes.entries, id),
    ensures
        m.step(AudioEvent::NodeMute(id, mute)) == (m, None::<Response>),
        m.step(AudioEvent::NodeVolume(id, volume)) == (m, None::<Response>),
{
    lemma_absent(m.sinks.nodes.entries, id);
    lemma_absent(m.sources.nodes.entries, id);
}

/// A volume report for a sink records the volume. When the sink is the
/// default and an active index is recorded, the active sink takes the values
/// of the node at that index; if they changed, and this is not the node's
/// first volume report, the OSD shows them. Sources are untouched.
pub proof fn law_sink_volume(m: ModelView, id: NodeId, volume: u32, p: usize)
    requires
        first_at(m.sinks.nodes.entries, id, p),
        m.sinks.default == Some(id) && m.sinks.nodes.active is Some ==> m.sinks.nodes.active->0
            < m.sinks.nodes.entries.len(),
    ensures
        ({
            let e = m.sinks.nodes.entries[p as int];
            let entries = m.sinks.nodes.entries.update(
                p as int,
                NodeEntry { id, volume, mute: e.mute, volume_seen: true, mute_seen: e.mute_seen },
            );
            let (m2, r) = m.step(AudioEvent::NodeVolume(id, volume));
            &&& m2.sources == m.sources
            &&& m2.sinks.nodes.entries == entries
            &&& m2.sinks.nodes.active == m.sinks.nodes.active
            &&& m2.sinks.default == m.sinks.default
            &&& m2.sinks.default_seen == m.sinks.default_seen
            &&& if m.sinks.default == Some(id) && m.sinks.nodes.active is Some {
                let q = m.sinks.nodes.active->0 as int;
                &&& m2.sinks.active == ActiveNode { volume: entries[q].volume, mute: entries[q].mute }
                &&& r == if m2.sinks.active != m.sinks.active && e.volume_seen {
                    Some(Response::SinkVolume(entries[q].volume, entries[q].mute))
                } else {
                    None
                }
            } else {
                m2.sinks.active == m.sinks.active && r is None
            }
        }),
{
    lemma_found_at(m.sinks.nodes.entries, id, p);
}

/// A volume report for a source that is not also a sink records the volume.
/// When the source is the default and an active index is recorded, the active
/// source takes the values of the node at that index; if they changed, and
/// this is not the node's first volume report, the OSD shows them. Sinks are
/// untouched.
pub proof fn law_source_volume(m: ModelView, id: NodeId, volume: u32, p: usize)
    requires
        absent(m.sinks.nodes.entries, id),
        first_at(m.sources.nodes.entries, id, p),
        m.sources.default == Some(id) && m.sources.nodes.active is Some
            ==> m.sources.nodes.active->0 < m.sources.nodes.entries.len(),
    ensures
        ({
            let e = m.sources.nodes.entries[p as int];
            let entries = m.sources.nodes.entries.update(
                p as int,
                NodeEntry { id, volume, mute: e.mute, volume_seen: true, mute_seen: e.mute_seen },
            );
            let (m2, r) = m.step(AudioEvent::NodeVolume(id, volume));
            &&& m2.sinks == m.sinks
            &&& m2.sources.nodes.entries == entries
            &&& m2.sources.nodes.active == m.sources.nodes.active
            &&& m2.sources.default == m.sources.default
            &&& m2.sources.default_seen == m.sources.default_seen
            &&& if m.sources.default == Some(id) && m.sources.nodes.active is Some {
                let q = m.sources.nodes.active->0 as int;
                &&& m2.sources.active == ActiveNode {
                    volume: entries[q].volume,
                    mute: entries[q].mute,
                }
                &&& r == if m2.sources.active != m.sources.active && e.volume_seen {
                    Some(Response::SourceVolume(entries[q].volume, entries[q].mute))
                } else {
                    None
                }
            } else {
                m2.sources.active == m.sources.active && r is None
            }
        }),
{
    lemma_absent(m.sinks.nodes.entries, id);
    lemma_found_at(m.sources.nodes.entries, id, p);
}

/// Naming a known sink as default makes it the active sink with its volume
/// and mute; after the first default, this raises the OSD with them.
pub proof fn law_default_sink_known(m: ModelView, id: NodeId, p: usize)
    requires
        first_at(m.sinks.nodes.entries, id, p),
    ensures
        ({
            let e = m.sinks.nodes.entries[p as int];
            let (m2, r) = m.step(AudioEvent::DefaultSink(id));
            &&& m2.sources == m.sources
            &&& m2.sinks.default == Some(id)
            &&& m2.sinks.default_seen
            &&& m2.sinks.nodes.entries == m.sinks.nodes.entries
            &&& m2.sinks.nodes.active == Some(p)
            &&& m2.sinks.active == ActiveNode { volume: e.volume, mute: e.mute }
            &&& r == if m.sinks.default_seen {
                Some(Response::SinkVolume(e.volume, e.mute))
            } else {
                None
            }
        }),
{
    lemma_found_at(m.sinks.nodes.entries, id, p);
}

/// Naming a known source as default makes it the active source with its
/// volume and mute; after the first default, this raises the OSD with them.
pub proof fn law_default_source_known(m: ModelView, id: NodeId, p: usize)
    requires
        first_at(m.sources.nodes.entries, id, p),
    ensures
        ({
            let e = m.sources.nodes.entries[p as int];
            let (m2, r) = m.step(AudioEvent::DefaultSource(id));
            &&& m2.sinks == m.sinks
            &&& m2.sources.default == Some(id)
            &&& m2.sources.default_seen
            &&& m2.sources.nodes.entries == m.sources.nodes.entries
            &&& m2.sources.nodes.active == Some(p)
            &&& m2.sources.active == ActiveNode { volume: e.volume, mute: e.mute }
            &&& r == if m.sources.default_seen {
                Some(Response::SourceVolume(e.volume, e.mute))
            } else {
                None
            }
        }),
{
    lemma_found_at(m.sources.nodes.entries, id, p);
}

/// Naming an unknown node as default sink records it as the default and
/// changes nothing else; no OSD.
pub proof fn law_default_sink_unknown(m: ModelView, id: NodeId)
    requires
        absent(m.sinks.nodes.entries, id),
    ensures
        ({
            let (m2, r) = m.step(AudioEvent::DefaultSink(id));
            &&& m2.sources == m.sources
            &&& m2.sinks.default == Some(id)
            &&& m2.sinks.default_seen == m.sinks.default_seen
            &&& m2.sinks.nodes == m.sinks.nodes
            &&& m2.sinks.active == m.sinks.active
            &&& r is None
        }),
{
    lemma_absent(m.sinks.nodes.entries, id);
}

/// Naming an unknown node as default source records it as the default and
/// changes nothing else; no OSD.
pub proof fn law_default_source_unknown(m: ModelView, id: NodeId)
    requires
        absent(m.sources.nodes.entries, id),
    ensures
        ({
            let (m2, r) = m.step(AudioEvent::DefaultSource(id));
            &&& m2.sinks == m.sinks
            &&& m2.sources.default == Some(id)
            &&& m2.sources.default_seen == m.sources.default_seen
            &&& m2.sources.nodes == m.sources.nodes
            &&& m2.sources.active == m.sources.active
            &&& r is None
        }),
{
    lemma_absent(m.sources.nodes.entries, id);
}

/// A default named before its node exists takes effect when the node is
/// described: the node becomes the active one, with its seeded values.
pub proof fn law_default_before_node(m: ModelView, id: NodeId, is_sink: bool)
    requires
        absent(if is_sink { m.sinks.nodes.entries } else { m.sources.nodes.entries }, id),
    ensures
        ({
            let m1 = m.step(if is_sink {
                AudioEvent::DefaultSink(id)
            } else {
                AudioEvent::DefaultSource(id)
            }).0;
            let m2 = m1.step(AudioEvent::Node(id, is_sink)).0;
            let before = if is_sink { m.sinks } else { m.sources };
            let after = if is_sink { m2.sinks } else { m2.sources };
            &&& after.default == Some(id)
            &&& after.nodes.active == Some(before.nodes.entries.len() as usize)
            &&& after.nodes.entries.len() == before.nodes.entries.len() + 1
            &&& after.nodes.entries.last().id == id
            &&& after.active == ActiveNode { volume: 0, mute: false }
        }),
{
    let entries = if is_sink { m.sinks.nodes.entries } else { m.sources.nodes.entries };
    lemma_absent(entries, id);
}

/// Describing a node of one kind: a new id is seeded at the end (volume 0,
/// unmuted, nothing reported yet), a known one is kept as it is; if the node
/// is that kind's default it becomes the active node with its values. The
/// other kind is untouched, and no OSD is raised.
pub proof fn law_node(m: ModelView, id: NodeId, is_sink: bool)
    requires
        m.sinks.nodes.entries.len() < usize::MAX,
        m.sources.nodes.entries.len() < usize::MAX,
    ensures
        ({
            let (m2, r) = m.step(AudioEvent::Node(id, is_sink));
            let before = if is_sink { m.sinks } else { m.sources };
            let after = if is_sink { m2.sinks } else { m2.sources };
            let seeded = NodeEntry {
                id,
                volume: 0,
                mute: false,
                volume_seen: false,
                mute_seen: false,
            };
            &&& r is None
            &&& (if is_sink { m2.sources == m.sources } else { m2.sinks == m.sinks })
            &&& after.default == before.default
            &&& after.default_seen == before.default_seen
            &&& has_node(before.nodes.entries, id) ==> after.nodes.entries == before.nodes.entries
            &&& !has_node(before.nodes.entries, id) ==> after.nodes.entries
                == before.nodes.entries.push(seeded)
            &&& before.default == Some(id) ==> {
                &&& after.nodes.active matches Some(q) && q < after.nodes.entries.len()
                    && after.nodes.entries[q as int].id == id
                &&& after.active == ActiveNode {
                    volume: after.nodes.entries[after.nodes.active->0 as int].volume,
                    mute: after.nodes.entries[after.nodes.active->0 as int].mute,
                }
            }
            &&& before.default != Some(id) ==> after.nodes.active == before.nodes.active
                && after.active == before.active
        }),
{
    let entries = if is_sink { m.sinks.nodes.entries } else { m.sources.nodes.entries };
    lemma_find_node(entries, id);
    let seeded = NodeEntry { id, volume: 0, mute: false, volume_seen: false, mute_seen: false };
    assert(entries.push(seeded)[entries.len() as int].id == id);
}

/// Removing a node takes it out of the sinks if it is one, else out of the
/// sources: its row is dropped, and the active index is cleared exactly when
/// it pointed at that row. No OSD.
pub proof fn law_remove_sink(m: ModelView, id: NodeId, p: usize)
    requires
        first_at(m.sinks.nodes.entries, id, p),
    ensures
        ({
            let (m2, r) = m.step(AudioEvent::RemoveNode(id));
            &&& r is None
            &&& m2.sources == m.sources
            &&& m2.sinks.nodes.entries == m.sinks.nodes.entries.remove(p as int)
            &&& m2.sinks.nodes.active == if m.sinks.nodes.active == Some(p) {
                None
            } else {
                m.sinks.nodes.active
            }
            &&& m2.sinks.active == m.sinks.active
            &&& m2.sinks.default == m.sinks.default
            &&& m2.sinks.default_seen == m.sinks.default_seen
        }),
{
    lemma_found_at(m.sinks.nodes.entries, id, p);
}

/// Removing a node that is not a sink takes it out of the sources: its row is
/// dropped, and the active index is cleared exactly when it pointed at that
/// row. No OSD.
pub proof fn law_remove_source(m: ModelView, id: NodeId, p: usize)
    requires
        absent(m.sinks.nodes.entries, id),
        first_at(m.sources.nodes.entries, id, p),
    ensures
        ({
            let (m2, r) = m.step(AudioEvent::RemoveNode(id));
            &&& r is None
            &&& m2.sinks == m.sinks
            &&& m2.sources.nodes.entries == m.sources.nodes.entries.remove(p as int)
            &&& m2.sources.nodes.active == if m.sources.nodes.active == Some(p) {
                None
            } else {
                m.sources.nodes.active
            }
            &&& m2.sources.active == m.sources.active
            &&& m2.sources.default == m.sources.default
            &&& m2.sources.default_seen == m.sources.default_seen
        }),
{
    lemma_absent(m.sinks.nodes.entries, id);
    lemma_found_at(m.sources.nodes.entries, id, p);
}

/// Removing an unknown node changes nothing.
pub proof fn law_remove_unknown(m: ModelView, id: NodeId)
    requires
        absent(m.sinks.nodes.entries, id),
        absent(m.sources.nodes.entries, id),
    ensures
        m.step(AudioEvent::RemoveNode(id)) == (m, None::<Response>),
{
    lemma_absent(m.sinks.nodes.entries, id);
    lemma_absent(m.sources.nodes.entries, id);
}

/// Every event but a volume report can always be applied. A volume report
/// for a sink (or, failing that, a source) can be applied unless that node is
/// the default and the recorded active index lies past the end of its table;
/// one for an unknown node always can.
pub proof fn law_accepts(m: ModelView, event: AudioEvent)
    ensures
        !(event is NodeVolume) ==> m.accepts(event),
        event matches AudioEvent::NodeVolume(id, _) ==> {
            &&& has_node(m.sinks.nodes.entries, id) ==> (m.accepts(event) <==> !(m.sinks.default
                == Some(id) && m.sinks.nodes.active is Some && m.sinks.nodes.active->0
                >= m.sinks.nodes.entries.len()))
            &&& !has_node(m.sinks.nodes.entries, id) && has_node(m.sources.nodes.entries, id) ==> (
            m.accepts(event) <==> !(m.sources.default == Some(id) && m.sources.nodes.active is Some
                && m.sources.nodes.active->0 >= m.sources.nodes.entries.len()))
            &&& !has_node(m.sinks.nodes.entries, id) && !has_node(m.sources.nodes.entries, id)
                ==> m.accepts(event)
        },
{
    if let AudioEvent::NodeVolume(id, _) = event {
        lemma_find_node(m.sinks.nodes.entries, id);
        lemma_find_node(m.sources.nodes.entries, id);
    }
}

} // verus!
