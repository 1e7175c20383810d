//! The mirror tree of accessible nodes for one window: a flat table keyed
//! by widget-derived ids, with its own parent/child adjacency so a widget
//! may contribute zero or one node. A widget with no node of its own is
//! transparent: its accessible children are hoisted to the nearest real
//! ancestor when an update batch is built.

use vstd::prelude::*;

use crate::geometry::Rect;

verus! {

broadcast use vstd::std_specs::hash::group_hash_axioms, vstd::seq_lib::group_seq_properties;

/// Role of an accessible node, as far as the engine distinguishes them.
#[derive(Debug, Clone, Copy, PartialEq, Eq, Structural)]
pub enum AccessibleRole {
    Group,
    Window,
    Button,
    Label,
    TextInput,
    Unknown,
}

/// What one widget contributes to the accessibility tree. The platform
/// adapter serializes it; the engine only stores and batches it.
#[derive(Debug)]
pub struct AccessibleNode {
    pub role: AccessibleRole,
    pub label: String,
    pub bounds: Option<Rect>,
}

impl AccessibleNode {
    pub fn duplicate(&self) -> (r: AccessibleNode)
        ensures
            r.role == self.role,
            r.label@ == self.label@,
            r.bounds == self.bounds,
    {
        AccessibleNode { role: self.role, label: self.label.clone(), bounds: self.bounds }
    }
}

/// A node as it leaves the engine: its content plus the computed list of
/// accessible children, transparent descendants already skipped.
#[derive(Debug)]
pub struct BuiltAccessibleNode {
    pub role: AccessibleRole,
    pub label: String,
    pub bounds: Option<Rect>,
    pub children: Vec<u64>,
}

/// One batch of accessibility changes, pulled once per event-loop tick
/// and handed to the platform adapter.
#[derive(Debug)]
pub struct AccessibleTreeUpdate {
    pub nodes: Vec<(u64, BuiltAccessibleNode)>,
    pub root: u64,
    pub focus: u64,
}

/// Whether `v` holds `x`.
fn vec_contains_u64(v: &Vec<u64>, x: u64) -> (r: bool)
    ensures
        r == v@.contains(x),
{
    let mut i: usize = 0;
    while i < v.len()
        invariant
            0 <= i <= v@.len(),
            forall|j: int| 0 <= j < i ==> v@[j] != x,
        decreases v@.len() - i,
    {
        if v[i] == x {
            assert(v@.contains(x));
            return true;
        }
        i = i + 1;
    }
    false
}

/// A copy of `v` without any occurrence of `x`; the copy never holds
/// duplicates.
fn vec_without_u64(v: &Vec<u64>, x: u64) -> (r: Vec<u64>)
    ensures
        forall|y: u64| r@.contains(y) <==> (v@.contains(y) && y != x),
        r@.no_duplicates(),
{
    let mut out: Vec<u64> = Vec::new();
    let mut i: usize = 0;
    while i < v.len()
        invariant
            0 <= i <= v@.len(),
            out@.no_duplicates(),
            forall|y: u64| out@.contains(y) <==> (v@.subrange(0, i as int).contains(y) && y != x),
        decreases v@.len() - i,
    {
        let ghost prefix = v@.subrange(0, i as int);
        let y = v[i];
        if y != x && !vec_contains_u64(&out, y) {
            let ghost out0 = out@;
            out.push(y);
            proof {
                assert(out@ =~= out0.push(y));
                assert forall|k: int, l: int|
                    0 <= k < l < out@.len() implies out@[k] != out@[l] by {
                    if l < out0.len() {
                    } else {
                        assert(out@[l] == y);
                        assert(out@[k] == out0[k]);
                        assert(out0.contains(out0[k]));
                    }
                }
            }
        }
        proof {
            assert(v@.subrange(0, i + 1 as int) =~= prefix.push(v@[i as int]));
        }
        i = i + 1;
    }
    proof {
        assert(v@.subrange(0, v@.len() as int) =~= v@);
    }
    out
}

/// What the children list `kids` flattens to, skipping transparent
/// entries: a real node (one in `dom`) stands for itself; a transparent
/// one is replaced by its own flattened children, spending one unit of
/// fuel per level.
pub open spec fn flatten_children(
    dc: Map<u64, Seq<u64>>,
    dom: Set<u64>,
    kids: Seq<u64>,
    fuel: nat,
) -> Seq<u64>
    decreases fuel, kids.len(),
{
    if kids.len() == 0 {
        Seq::empty()
    } else {
        flatten_one(dc, dom, kids[0], fuel) + flatten_children(dc, dom, kids.skip(1), fuel)
    }
}

/// What a single entry of a children list contributes.
pub open spec fn flatten_one(dc: Map<u64, Seq<u64>>, dom: Set<u64>, kid: u64, fuel: nat) -> Seq<
    u64,
>
    decreases fuel, 0nat,
{
    if dom.contains(kid) {
        seq![kid]
    } else if fuel > 0 && dc.contains_key(kid) {
        flatten_children(dc, dom, dc[kid], (fuel - 1) as nat)
    } else {
        Seq::empty()
    }
}

/// The computed accessible children of `parent`.
pub open spec fn children_of(
    dc: Map<u64, Seq<u64>>,
    dom: Set<u64>,
    parent: u64,
    fuel: nat,
) -> Seq<u64> {
    if dc.contains_key(parent) {
        flatten_children(dc, dom, dc[parent], fuel)
    } else {
        Seq::empty()
    }
}

/// The first id on the parent chain upward from `from` that has a real
/// node: `from` itself when it has one. The walk gives up at the virtual
/// root, at a broken link, or when the cycle-protection fuel runs out,
/// since the accessibility mirror is best-effort.
pub open spec fn nearest_real_ancestor(
    parents: Map<u64, u64>,
    dom: Set<u64>,
    root: u64,
    from: u64,
    fuel: nat,
) -> Option<u64>
    decreases fuel,
{
    if dom.contains(from) {
        Some(from)
    } else if from == root {
        None
    } else if fuel == 0 {
        None
    } else if parents.contains_key(from) {
        nearest_real_ancestor(parents, dom, root, parents[from], (fuel - 1) as nat)
    } else {
        None
    }
}

/// `after` holds exactly `before` plus the nearest real ancestor of
/// `from`, when one exists; otherwise it is `before` unchanged.
pub open spec fn pending_extended_toward(
    parents: Map<u64, u64>,
    dom: Set<u64>,
    root: u64,
    from: u64,
    fuel: nat,
    before: Seq<u64>,
    after: Seq<u64>,
) -> bool {
    match nearest_real_ancestor(parents, dom, root, from, fuel) {
        Some(a) => forall|x: u64| #[trigger] after.contains(x) <==> (before.contains(x) || x == a),
        None => after == before,
    }
}

/// What one entry of an update batch must look like: a pending id whose
/// node was still present, its content copied and its children list
/// recomputed through transparent descendants.
pub open spec fn built_entry_ok(
    entry: (u64, BuiltAccessibleNode),
    nodes: Map<u64, AccessibleNode>,
    dc: Map<u64, Seq<u64>>,
    fuel: nat,
    pending: Seq<u64>,
) -> bool {
    &&& pending.contains(entry.0)
    &&& nodes.contains_key(entry.0)
    &&& entry.1.role == nodes[entry.0].role
    &&& entry.1.label@ == nodes[entry.0].label@
    &&& entry.1.bounds == nodes[entry.0].bounds
    &&& entry.1.children@ =~= children_of(dc, nodes.dom(), entry.0, fuel)
}

/// Whether an update batch carries an entry for id `x`.
pub open spec fn batch_has_id(nodes: Seq<(u64, BuiltAccessibleNode)>, x: u64) -> bool {
    exists|j: int| 0 <= j < nodes.len() && (#[trigger] nodes[j]).0 == x
}

/// Everything a flattened children list holds is a real node: a
/// transparent id never appears in any computed children list.
pub proof fn lemma_flatten_children_only_real(
    dc: Map<u64, Seq<u64>>,
    dom: Set<u64>,
    kids: Seq<u64>,
    fuel: nat,
)
    ensures
        forall|x: u64| #[trigger]
            flatten_children(dc, dom, kids, fuel).contains(x) ==> dom.contains(x),
    decreases fuel, kids.len(),
{
    if kids.len() == 0 {
    } else {
        let head = kids[0];
        let whole = flatten_children(dc, dom, kids, fuel);
        let head_out = flatten_one(dc, dom, head, fuel);
        let rest = flatten_children(dc, dom, kids.skip(1), fuel);
        if !dom.contains(head) && fuel > 0 && dc.contains_key(head) {
            lemma_flatten_children_only_real(dc, dom, dc[head], (fuel - 1) as nat);
        }
        lemma_flatten_children_only_real(dc, dom, kids.skip(1), fuel);
        assert forall|x: u64| #[trigger] whole.contains(x) implies dom.contains(x) by {
            assert(whole == head_out + rest);
            let i = choose|i: int| 0 <= i < whole.len() && whole[i] == x;
            assert((head_out + rest)[i] == x);
            if i < head_out.len() {
                assert(head_out[i] == x);
                if dom.contains(head) {
                    assert(head_out == seq![head]);
                    assert(x == head);
                } else {
                    assert(fuel > 0 && dc.contains_key(head));
                    assert(head_out == flatten_children(dc, dom, dc[head], (fuel - 1) as nat));
                    assert(flatten_children(dc, dom, dc[head], (fuel - 1) as nat).contains(x));
                }
            } else {
                assert(rest[i - head_out.len()] == x);
                assert(rest.contains(x));
            }
        }
    }
}

/// Flattening distributes over appending one child at the end.
pub proof fn lemma_flatten_children_push(
    dc: Map<u64, Seq<u64>>,
    dom: Set<u64>,
    kids: Seq<u64>,
    extra: u64,
    fuel: nat,
)
    ensures
        flatten_children(dc, dom, kids.push(extra), fuel) =~= flatten_children(dc, dom, kids, fuel)
            + flatten_one(dc, dom, extra, fuel),
    decreases kids.len(),
{
    if kids.len() == 0 {
        let pushed = kids.push(extra);
        assert(pushed.len() == 1);
        assert(pushed[0] == extra);
        assert(pushed.skip(1) =~= Seq::<u64>::empty());
        assert(flatten_children(dc, dom, pushed.skip(1), fuel) =~= Seq::<u64>::empty());
        assert(flatten_children(dc, dom, pushed, fuel) == flatten_one(dc, dom, pushed[0], fuel)
            + flatten_children(dc, dom, pushed.skip(1), fuel));
        assert(flatten_children(dc, dom, pushed, fuel) =~= flatten_one(dc, dom, extra, fuel));
        assert(flatten_children(dc, dom, kids, fuel) =~= Seq::<u64>::empty());
    } else {
        let pushed = kids.push(extra);
        assert(pushed[0] == kids[0]);
        assert(pushed.skip(1) =~= kids.skip(1).push(extra));
        lemma_flatten_children_push(dc, dom, kids.skip(1), extra, fuel);
        let a = flatten_one(dc, dom, kids[0], fuel);
        let b = flatten_children(dc, dom, kids.skip(1), fuel);
        let c = flatten_one(dc, dom, extra, fuel);
        assert(flatten_children(dc, dom, pushed, fuel) == a + flatten_children(
            dc,
            dom,
            pushed.skip(1),
            fuel,
        ));
        assert(flatten_children(dc, dom, pushed.skip(1), fuel) =~= b + c);
        assert(a + (b + c) =~= (a + b) + c);
    }
}

impl AccessibleNodes {
    pub open spec fn dc_view(self) -> Map<u64, Seq<u64>> {
        self.direct_children@.map_values(|v: Vec<u64>| v@)
    }

    pub open spec fn dom_view(self) -> Set<u64> {
        self.nodes@.dom()
    }

    /// No duplicate ids in the pending set or in any children list.
    pub open spec fn wf(self) -> bool {
        &&& self.pending_updates@.no_duplicates()
        &&& forall|k: u64|
            self.direct_children@.contains_key(k) ==> (
            #[trigger] self.direct_children@[k])@.no_duplicates()
    }

    /// A fresh table for a window whose virtual root has `root_id`: the
    /// root node is present from the start and focus defaults to it.
    pub fn new(root_id: u64) -> (r: AccessibleNodes)
        ensures
            r.wf(),
            r.root == root_id,
            r.focus == root_id,
            r.nodes@.dom() =~= Set::<u64>::empty().insert(root_id),
            r.nodes@[root_id].role == AccessibleRole::Group,
            r.nodes@[root_id].label@ =~= Seq::<char>::empty(),
            r.nodes@[root_id].bounds is None,
            r.dc_view() =~= Map::<u64, Seq<u64>>::empty(),
            r.direct_parents@ =~= Map::<u64, u64>::empty(),
            r.pending_updates@ =~= seq![root_id],
    {
        let mut nodes: std::collections::HashMap<u64, AccessibleNode> =
            std::collections::HashMap::new();
        let root_node = AccessibleNode {
            role: AccessibleRole::Group,
            label: String::new(),
            bounds: None,
        };
        nodes.insert(root_id, root_node);
        let mut pending_updates: Vec<u64> = Vec::new();
        pending_updates.push(root_id);
        let direct_children: std::collections::HashMap<u64, Vec<u64>> =
            std::collections::HashMap::new();
        proof {
            assert(direct_children@.map_values(|v: Vec<u64>| v@) =~= Map::<u64, Seq<u64>>::empty());
        }
        AccessibleNodes {
            nodes,
            direct_children,
            direct_parents: std::collections::HashMap::new(),
            pending_updates,
            root: root_id,
            focus: root_id,
        }
    }

    fn push_pending(&mut self, id: u64)
        requires
            old(self).wf(),
        ensures
            final(self).wf(),
            final(self).pending_updates@.contains(id),
            forall|x: u64| #[trigger]
                final(self).pending_updates@.contains(x) <==> (old(self).pending_updates@.contains(x) || x == id),
            final(self).nodes == old(self).nodes,
            final(self).direct_children == old(self).direct_children,
            final(self).direct_parents == old(self).direct_parents,
            final(self).root == old(self).root,
            final(self).focus == old(self).focus,
    {
        if !vec_contains_u64(&self.pending_updates, id) {
            let ghost before = self.pending_updates@;
            self.pending_updates.push(id);
            proof {
                assert(self.pending_updates@ =~= before.push(id));
                assert forall|k: int, l: int|
                    0 <= k < l < self.pending_updates@.len() implies self.pending_updates@[k]
                    != self.pending_updates@[l] by {
                    if l < before.len() {
                    } else {
                        assert(self.pending_updates@[l] == id);
                        assert(before.contains(before[k]));
                    }
                }
            }
        }
    }

    /// Walk up from `from` to the nearest ancestor that has a real node,
    /// and mark it pending: its computed children list may have changed.
    /// Stops without effect when the chain is broken or cyclic, since the
    /// accessibility mirror is best-effort and must not bring the UI
    /// down.
    pub fn mark_parent_as_pending(&mut self, from: u64)
        requires
            old(self).wf(),
        ensures
            final(self).wf(),
            final(self).nodes == old(self).nodes,
            final(self).direct_children == old(self).direct_children,
            final(self).direct_parents == old(self).direct_parents,
            final(self).root == old(self).root,
            final(self).focus == old(self).focus,
            forall|x: u64|
                old(self).pending_updates@.contains(x) ==> #[trigger] final(self).pending_updates@.contains(x),
            pending_extended_toward(
                old(self).direct_parents@,
                old(self).nodes@.dom(),
                old(self).root,
                from,
                old(self).direct_parents@.len(),
                old(self).pending_updates@,
                final(self).pending_updates@,
            ),
    {
        let mut current: u64 = from;
        let mut fuel: usize = self.direct_parents.len();
        loop
            invariant
                self.wf(),
                self.nodes == old(self).nodes,
                self.direct_children == old(self).direct_children,
                self.direct_parents == old(self).direct_parents,
                self.root == old(self).root,
                self.focus == old(self).focus,
                self.pending_updates == old(self).pending_updates,
                fuel <= old(self).direct_parents@.len(),
                nearest_real_ancestor(
                    old(self).direct_parents@,
                    old(self).nodes@.dom(),
                    old(self).root,
                    from,
                    old(self).direct_parents@.len(),
                ) == nearest_real_ancestor(
                    old(self).direct_parents@,
                    old(self).nodes@.dom(),
                    old(self).root,
                    current,
                    fuel as nat,
                ),
            decreases fuel,
        {
            if self.nodes.contains_key(&current) {
                proof {
                    assert(nearest_real_ancestor(
                        old(self).direct_parents@,
                        old(self).nodes@.dom(),
                        old(self).root,
                        current,
                        fuel as nat,
                    ) == Some(current));
                }
                self.push_pending(current);
                return ;
            }
            if current == self.root {
                return ;
            }
            if fuel == 0 {
                return ;
            }
            fuel = fuel - 1;
            match self.direct_parents.get(&current) {
                Some(next) => {
                    current = *next;
                },
                None => {
                    return ;
                },
            }
        }
    }

    /// Attach `child` under `parent` (or under the virtual root), and
    /// mark the nearest real ancestor pending.
    pub fn mount(&mut self, parent: Option<u64>, child: u64)
        requires
            old(self).wf(),
        ensures
            final(self).wf(),
            final(self).nodes == old(self).nodes,
            final(self).root == old(self).root,
            final(self).focus == old(self).focus,
            ({
                let p = if parent.is_some() {
                    parent.unwrap()
                } else {
                    old(self).root
                };
                &&& final(self).direct_parents@ =~= old(self).direct_parents@.insert(child, p)
                &&& final(self).dc_view().contains_key(p)
                &&& final(self).dc_view()[p].contains(child)
                &&& forall|x: u64| #[trigger]
                    final(self).dc_view()[p].contains(x) ==> (x == child || (old(self).dc_view().contains_key(p) && old(self).dc_view()[p].contains(x)))
                &&& forall|q: u64|
                    q != p ==> (#[trigger] final(self).dc_view().contains_key(q) == old(self).dc_view().contains_key(q) && (old(self).dc_view().contains_key(q) ==> final(self).dc_view()[q] == old(self).dc_view()[q]))
                &&& pending_extended_toward(
                    final(self).direct_parents@,
                    final(self).nodes@.dom(),
                    final(self).root,
                    p,
                    final(self).direct_parents@.len(),
                    old(self).pending_updates@,
                    final(self).pending_updates@,
                )
            }),
    {
        let p = match parent {
            Some(p) => p,
            None => self.root,
        };
        self.direct_parents.insert(child, p);
        let ghost dc0 = self.dc_view();
        let mut kids: Vec<u64> = match self.direct_children.remove(&p) {
            Some(kids) => kids,
            None => Vec::new(),
        };
        let ghost kids0 = kids@;
        proof {
            if dc0.contains_key(p) {
                assert(kids0 == dc0[p]);
            }
            assert(kids0.no_duplicates());
        }
        if !vec_contains_u64(&kids, child) {
            kids.push(child);
            proof {
                assert(kids@ =~= kids0.push(child));
                assert forall|k: int, l: int| 0 <= k < l < kids@.len() implies kids@[k]
                    != kids@[l] by {
                    if l < kids0.len() {
                    } else {
                        assert(kids@[l] == child);
                        assert(kids0.contains(kids0[k]));
                    }
                }
            }
        }
        let ghost kids1 = kids@;
        self.direct_children.insert(p, kids);
        proof {
            assert(self.direct_children@[p]@ == kids1);
            assert(self.dc_view()[p] == kids1);
            assert(self.dc_view().contains_key(p));
            assert(kids1.contains(child));
            assert forall|q: u64| q != p implies (#[trigger] self.dc_view().contains_key(q)
                == dc0.contains_key(q) && (dc0.contains_key(q) ==> self.dc_view()[q]
                == dc0[q])) by {
                if dc0.contains_key(q) {
                    assert(self.direct_children@[q] == old(self).direct_children@[q]);
                }
            }
        }
        self.mark_parent_as_pending(p);
    }

    /// Detach `child` from `parent` (or from the virtual root). Removing
    /// a child that is not attached is allowed and leaves the children
    /// map as it was; either way the nearest real ancestor is marked
    /// pending and the child's parent entry is gone.
    pub fn unmount(&mut self, parent: Option<u64>, child: u64)
        requires
            old(self).wf(),
        ensures
            final(self).wf(),
            final(self).nodes == old(self).nodes,
            final(self).root == old(self).root,
            final(self).focus == old(self).focus,
            final(self).direct_parents@ =~= old(self).direct_parents@.remove(child),
            ({
                let p = if parent.is_some() {
                    parent.unwrap()
                } else {
                    old(self).root
                };
                &&& (final(self).dc_view().contains_key(p) ==> !final(self).dc_view()[p].contains(child))
                &&& forall|q: u64| #[trigger]
                    final(self).dc_view().contains_key(q) ==> old(self).dc_view().contains_key(q)
                &&& forall|q: u64, x: u64|
                    final(self).dc_view().contains_key(q) && #[trigger] final(self).dc_view()[q].contains(x) ==> old(self).dc_view()[q].contains(x)
                &&& pending_extended_toward(
                    final(self).direct_parents@,
                    final(self).nodes@.dom(),
                    final(self).root,
                    p,
                    final(self).direct_parents@.len(),
                    old(self).pending_updates@,
                    final(self).pending_updates@,
                )
            }),
    {
        let p = match parent {
            Some(p) => p,
            None => self.root,
        };
        self.direct_parents.remove(&child);
        let ghost dc0 = self.dc_view();
        match self.direct_children.remove(&p) {
            Some(kids) => {
                let remaining = vec_without_u64(&kids, child);
                proof {
                    assert(dc0.contains_key(p));
                    assert(kids@ == dc0[p]);
                }
                if remaining.len() > 0 {
                    let ghost rem = remaining@;
                    self.direct_children.insert(p, remaining);
                    proof {
                        assert(self.dc_view()[p] == rem);
                        assert forall|q: u64| #[trigger] self.dc_view().contains_key(q) implies
                            dc0.contains_key(q) by {}
                        assert forall|q: u64, x: u64|
                            self.dc_view().contains_key(q) && #[trigger] self.dc_view()[q].contains(
                                x,
                            ) implies dc0[q].contains(x) by {
                            if q != p {
                                assert(self.direct_children@[q] == old(self).direct_children@[q]);
                            }
                        }
                    }
                }
            },
            None => {},
        }
        self.mark_parent_as_pending(p);
    }

    /// Upsert or remove the node contributed for `id`. When the node's
    /// mere presence changed (added or removed, not just content), the
    /// nearest real ancestor is marked pending too, since membership of
    /// its children list changed.
    pub fn update(&mut self, id: u64, node: Option<AccessibleNode>)
        requires
            old(self).wf(),
        ensures
            final(self).wf(),
            final(self).direct_children == old(self).direct_children,
            final(self).direct_parents == old(self).direct_parents,
            final(self).root == old(self).root,
            final(self).focus == old(self).focus,
            node.is_some() ==> final(self).nodes@ =~= old(self).nodes@.insert(id, node.unwrap()),
            node.is_none() ==> final(self).nodes@ =~= old(self).nodes@.remove(id),
            final(self).pending_updates@.contains(id),
            forall|x: u64|
                old(self).pending_updates@.contains(x) ==> #[trigger] final(self).pending_updates@.contains(x),
            ({
                let changed = (node is Some && !old(self).nodes@.contains_key(id)) || (
                node is None && old(self).nodes@.contains_key(id));
                if changed && id != old(self).root && old(self).direct_parents@.contains_key(id) {
                    match nearest_real_ancestor(
                        old(self).direct_parents@,
                        final(self).nodes@.dom(),
                        old(self).root,
                        old(self).direct_parents@[id],
                        old(self).direct_parents@.len(),
                    ) {
                        Some(a) => forall|x: u64| #[trigger]
                            final(self).pending_updates@.contains(x) <==> (old(
                            self,
                        ).pending_updates@.contains(x) || x == id || x == a),
                        None => forall|x: u64| #[trigger]
                            final(self).pending_updates@.contains(x) <==> (old(
                            self,
                        ).pending_updates@.contains(x) || x == id),
                    }
                } else {
                    forall|x: u64| #[trigger]
                        final(self).pending_updates@.contains(x) <==> (old(
                        self,
                    ).pending_updates@.contains(x) || x == id)
                }
            }),
    {
        let added_or_removed: bool;
        match node {
            Some(node) => {
                let r = self.nodes.insert(id, node);
                added_or_removed = r.is_none();
            },
            None => {
                let r = self.nodes.remove(&id);
                added_or_removed = r.is_some();
            },
        }
        self.push_pending(id);
        let ghost mid = self.pending_updates@;
        if added_or_removed && id != self.root {
            match self.direct_parents.get(&id) {
                Some(parent) => {
                    let parent = *parent;
                    self.mark_parent_as_pending(parent);
                    proof {
                        match nearest_real_ancestor(
                            self.direct_parents@,
                            self.nodes@.dom(),
                            self.root,
                            self.direct_parents@[id],
                            self.direct_parents@.len(),
                        ) {
                            Some(a) => {
                                assert forall|x: u64| #[trigger]
                                    self.pending_updates@.contains(x) <==> (old(
                                    self,
                                ).pending_updates@.contains(x) || x == id || x == a) by {
                                    assert(self.pending_updates@.contains(x) <==> (mid.contains(x)
                                        || x == a));
                                }
                            },
                            None => {},
                        }
                    }
                },
                None => {
                    // Broken adjacency: degrade to an orphaned node
                    // rather than failing.
                },
            }
        }
    }

    /// Point accessibility focus at `focus`, or back at the virtual root.
    /// No validation happens here; callers pass a currently mounted id.
    pub fn set_focus(&mut self, focus: Option<u64>)
        requires
            old(self).wf(),
        ensures
            final(self).wf(),
            final(self).nodes == old(self).nodes,
            final(self).direct_children == old(self).direct_children,
            final(self).direct_parents == old(self).direct_parents,
            final(self).pending_updates == old(self).pending_updates,
            final(self).root == old(self).root,
            final(self).focus == (if focus.is_some() {
                focus.unwrap()
            } else {
                old(self).root
            }),
    {
        match focus {
            Some(f) => {
                self.focus = f;
            },
            None => {
                self.focus = self.root;
            },
        }
    }

    /// Append the flattened accessible children of `kids` to `out`:
    /// a real node stands for itself, a transparent one is expanded one
    /// fuel level deep into its own children.
    fn collect_children(&self, kids: &Vec<u64>, fuel: usize, out: &mut Vec<u64>)
        ensures
            final(out)@ =~= old(out)@ + flatten_children(
                self.dc_view(),
                self.dom_view(),
                kids@,
                fuel as nat,
            ),
        decreases fuel,
    {
        let mut i: usize = 0;
        while i < kids.len()
            invariant
                0 <= i <= kids@.len(),
                out@ =~= old(out)@ + flatten_children(
                    self.dc_view(),
                    self.dom_view(),
                    kids@.subrange(0, i as int),
                    fuel as nat,
                ),
            decreases kids@.len() - i,
        {
            let ghost prefix = kids@.subrange(0, i as int);
            let kid = kids[i];
            if self.nodes.contains_key(&kid) {
                out.push(kid);
                proof {
                    assert(flatten_one(self.dc_view(), self.dom_view(), kid, fuel as nat)
                        =~= seq![kid]);
                }
            } else if fuel > 0 {
                match self.direct_children.get(&kid) {
                    Some(grandkids) => {
                        self.collect_children(grandkids, fuel - 1, out);
                        proof {
                            assert(self.dc_view().contains_key(kid));
                            assert(self.dc_view()[kid] == grandkids@);
                            assert(flatten_one(self.dc_view(), self.dom_view(), kid, fuel as nat)
                                =~= flatten_children(
                                self.dc_view(),
                                self.dom_view(),
                                grandkids@,
                                (fuel - 1) as nat,
                            ));
                        }
                    },
                    None => {
                        proof {
                            assert(!self.dc_view().contains_key(kid));
                            assert(flatten_one(self.dc_view(), self.dom_view(), kid, fuel as nat)
                                =~= Seq::<u64>::empty());
                        }
                    },
                }
            } else {
                proof {
                    assert(flatten_one(self.dc_view(), self.dom_view(), kid, fuel as nat) =~= Seq::<
                        u64,
                    >::empty());
                }
            }
            proof {
                assert(kids@.subrange(0, i + 1 as int) =~= prefix.push(kids@[i as int]));
                lemma_flatten_children_push(
                    self.dc_view(),
                    self.dom_view(),
                    prefix,
                    kids@[i as int],
                    fuel as nat,
                );
            }
            i = i + 1;
        }
        proof {
            assert(kids@.subrange(0, kids@.len() as int) =~= kids@);
        }
    }

    /// The computed accessible children of `id`, skipping transparent
    /// descendants.
    fn find_children(&self, id: u64, fuel: usize) -> (r: Vec<u64>)
        ensures
            r@ =~= children_of(self.dc_view(), self.dom_view(), id, fuel as nat),
    {
        let mut out: Vec<u64> = Vec::new();
        match self.direct_children.get(&id) {
            Some(kids) => {
                self.collect_children(kids, fuel, &mut out);
                proof {
                    assert(self.dc_view().contains_key(id));
                    assert(self.dc_view()[id] == kids@);
                }
            },
            None => {
                proof {
                    assert(!self.dc_view().contains_key(id));
                }
            },
        }
        out
    }

    /// Build the batch for this tick: every pending id that still has a
    /// node appears once, with its children list recomputed through
    /// transparent descendants; the pending set is cleared.
    pub fn take_update(&mut self) -> (r: AccessibleTreeUpdate)
        requires
            old(self).wf(),
            old(self).direct_children@.len() < usize::MAX,
        ensures
            final(self).wf(),
            final(self).nodes == old(self).nodes,
            final(self).direct_children == old(self).direct_children,
            final(self).direct_parents == old(self).direct_parents,
            final(self).root == old(self).root,
            final(self).focus == old(self).focus,
            final(self).pending_updates@ =~= Seq::<u64>::empty(),
            r.root == old(self).root,
            r.focus == old(self).focus,
            r.nodes@.len() <= old(self).pending_updates@.len(),
            forall|j: int|
                0 <= j < r.nodes@.len() ==> built_entry_ok(
                    #[trigger] r.nodes@[j],
                    old(self).nodes@,
                    old(self).dc_view(),
                    old(self).direct_children@.len() + 1,
                    old(self).pending_updates@,
                ),
            forall|x: u64| #[trigger]
                old(self).pending_updates@.contains(x) && old(self).nodes@.contains_key(x)
                    ==> batch_has_id(r.nodes@, x),
    {
        let fuel = self.direct_children.len() + 1;
        let mut out_nodes: Vec<(u64, BuiltAccessibleNode)> = Vec::new();
        let mut i: usize = 0;
        while i < self.pending_updates.len()
            invariant
                self.wf(),
                self.nodes == old(self).nodes,
                self.direct_children == old(self).direct_children,
                self.direct_parents == old(self).direct_parents,
                self.root == old(self).root,
                self.focus == old(self).focus,
                self.pending_updates == old(self).pending_updates,
                fuel == self.direct_children@.len() + 1,
                0 <= i <= self.pending_updates@.len(),
                out_nodes@.len() <= i,
                forall|j: int|
                    0 <= j < out_nodes@.len() ==> built_entry_ok(
                        #[trigger] out_nodes@[j],
                        self.nodes@,
                        self.dc_view(),
                        self.direct_children@.len() + 1,
                        self.pending_updates@,
                    ),
                forall|k: int|
                    0 <= k < i && self.nodes@.contains_key(#[trigger] self.pending_updates@[k])
                        ==> batch_has_id(out_nodes@, self.pending_updates@[k]),
            decreases self.pending_updates@.len() - i,
        {
            let id = self.pending_updates[i];
            assert(self.pending_updates@.contains(id));
            let ghost out0 = out_nodes@;
            match self.nodes.get(&id) {
                Some(node) => {
                    let children = self.find_children(id, fuel);
                    let built = BuiltAccessibleNode {
                        role: node.role,
                        label: node.label.clone(),
                        bounds: node.bounds,
                        children,
                    };
                    out_nodes.push((id, built));
                    proof {
                        assert(out_nodes@.len() == out0.len() + 1);
                        assert(out_nodes@[out0.len() as int].0 == id);
                        assert forall|k: int|
                            0 <= k < i + 1 && self.nodes@.contains_key(
                                #[trigger] self.pending_updates@[k],
                            ) implies batch_has_id(out_nodes@, self.pending_updates@[k]) by {
                            if k < i {
                                let j0 = choose|j0: int|
                                    0 <= j0 < out0.len() && (#[trigger] out0[j0]).0
                                        == self.pending_updates@[k];
                                assert((out_nodes@[j0]).0 == self.pending_updates@[k]);
                            } else {
                                assert((out_nodes@[out0.len() as int]).0
                                    == self.pending_updates@[k]);
                            }
                        }
                    }
                },
                None => {},
            }
            i = i + 1;
        }
        let ghost pending0 = self.pending_updates@;
        self.pending_updates = Vec::new();
        proof {
            assert(i == pending0.len());
            assert(pending0 =~= old(self).pending_updates@);
            assert forall|x: u64| #[trigger]
                old(self).pending_updates@.contains(x) && old(self).nodes@.contains_key(x) implies
                batch_has_id(out_nodes@, x) by {
                let k = choose|k: int| 0 <= k < pending0.len() && pending0[k] == x;
                assert(self.nodes@.contains_key(pending0[k]));
                assert(batch_has_id(out_nodes@, pending0[k]));
            }
        }
        AccessibleTreeUpdate { nodes: out_nodes, root: self.root, focus: self.focus }
    }
}

/// The accessible-node table of one window.
pub struct AccessibleNodes {
    /// Content contributed per id; an id absent here but present in the
    /// adjacency maps is a transparent pass-through.
    pub nodes: std::collections::HashMap<u64, AccessibleNode>,
    /// Ids of the direct children of each id, in mount order, without
    /// duplicates; decoupled from the widget tree's edges.
    pub direct_children: std::collections::HashMap<u64, Vec<u64>>,
    /// The direct parent of each mounted id.
    pub direct_parents: std::collections::HashMap<u64, u64>,
    /// Ids whose computed children list or content may have changed since
    /// the last batch; no duplicates.
    pub pending_updates: Vec<u64>,
    pub root: u64,
    pub focus: u64,
}

/// Accessibility parent-hoisting: when a transparent widget `t` (one with
/// no accessible node of its own) stands between a real ancestor `a` and
/// an accessible child `c`, the computed children list of `a` includes
/// `c` and never includes `t`.
pub proof fn lemma_parent_hoisting(
    dc: Map<u64, Seq<u64>>,
    dom: Set<u64>,
    a: u64,
    t: u64,
    c: u64,
    fuel: nat,
)
    requires
        dc.contains_key(a),
        dc[a].contains(t),
        !dom.contains(t),
        dc.contains_key(t),
        dc[t].contains(c),
        dom.contains(c),
        fuel >= 1,
    ensures
        children_of(dc, dom, a, fuel).contains(c),
        !children_of(dc, dom, a, fuel).contains(t),
{
    lemma_flatten_children_only_real(dc, dom, dc[a], fuel);
    if children_of(dc, dom, a, fuel).contains(t) {
        assert(dom.contains(t));
        assert(false);
    }
    let i = choose|i: int| 0 <= i < dc[a].len() && dc[a][i] == t;
    let j = choose|j: int| 0 <= j < dc[t].len() && dc[t][j] == c;
    lemma_flatten_contains_direct(dc, dom, dc[t], j, (fuel - 1) as nat);
    lemma_flatten_contains_expanded(dc, dom, dc[a], i, fuel);
}

/// A real id that stands directly in `kids` appears in the flattening.
pub proof fn lemma_flatten_contains_direct(
    dc: Map<u64, Seq<u64>>,
    dom: Set<u64>,
    kids: Seq<u64>,
    i: int,
    fuel: nat,
)
    requires
        0 <= i < kids.len(),
        dom.contains(kids[i]),
    ensures
        flatten_children(dc, dom, kids, fuel).contains(kids[i]),
    decreases i,
{
    let whole = flatten_children(dc, dom, kids, fuel);
    let head_out = flatten_one(dc, dom, kids[0], fuel);
    if i == 0 {
        assert(whole[0] == kids[0]);
    } else {
        lemma_flatten_contains_direct(dc, dom, kids.skip(1), i - 1, fuel);
        let inner = flatten_children(dc, dom, kids.skip(1), fuel);
        assert(kids.skip(1)[i - 1] == kids[i]);
        let k = choose|k: int| 0 <= k < inner.len() && inner[k] == kids[i];
        assert(whole[head_out.len() + k] == kids[i]);
    }
}

/// Everything inside a transparent child's own flattening appears in the
/// flattening of a list that holds that transparent child.
pub proof fn lemma_flatten_contains_expanded(
    dc: Map<u64, Seq<u64>>,
    dom: Set<u64>,
    kids: Seq<u64>,
    i: int,
    fuel: nat,
)
    requires
        0 <= i < kids.len(),
        !dom.contains(kids[i]),
        dc.contains_key(kids[i]),
        fuel >= 1,
    ensures
        forall|x: u64|
            flatten_children(dc, dom, dc[kids[i]], (fuel - 1) as nat).contains(x) ==> #[trigger]
            flatten_children(dc, dom, kids, fuel).contains(x),
    decreases i,
{
    let whole = flatten_children(dc, dom, kids, fuel);
    let head_out = flatten_one(dc, dom, kids[0], fuel);
    let expanded = flatten_children(dc, dom, dc[kids[i]], (fuel - 1) as nat);
    if i == 0 {
        assert forall|x: u64| expanded.contains(x) implies #[trigger] whole.contains(x) by {
            let k = choose|k: int| 0 <= k < expanded.len() && expanded[k] == x;
            assert(head_out == expanded);
            assert(whole[k] == x);
        }
    } else {
        lemma_flatten_contains_expanded(dc, dom, kids.skip(1), i - 1, fuel);
        let inner = flatten_children(dc, dom, kids.skip(1), fuel);
        assert(kids.skip(1)[i - 1] == kids[i]);
        assert forall|x: u64| expanded.contains(x) implies #[trigger] whole.contains(x) by {
            assert(inner.contains(x));
            let k = choose|k: int| 0 <= k < inner.len() && inner[k] == x;
            assert(whole[head_out.len() + k] == x);
        }
    }
}

} // verus!
