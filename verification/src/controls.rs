//! The control tree, its flat form keyed by control id, and the one way in
//! which a control's state changes.

use vstd::prelude::*;
use crate::control_updates::{
    clone_id, clone_number, clone_text, number_view, same_id, text_view, ButtonState, Number,
    NumberView, SliderState, UpdateMsg, UpdateMsgView,
};

verus! {

/// One node of the control tree. A group is pure structure; the other kinds
/// carry the state that updates change.
#[derive(Debug, PartialEq, Eq)]
pub enum Control {
    Group { name: String, children: Vec<Control> },
    Slider {
        name: String,
        state: Option<SliderState>,
        location: Option<Number>,
        label: Option<String>,
    },
    Button { name: String, state: Option<ButtonState>, label: Option<String> },
    Label { name: String, text: String },
}

/// What one node holds by itself, without the nodes below it.
pub enum Node {
    Group { name: Seq<char> },
    Slider {
        name: Seq<char>,
        state: Option<SliderState>,
        location: Option<NumberView>,
        label: Option<Seq<char>>,
    },
    Button { name: Seq<char>, state: Option<ButtonState>, label: Option<Seq<char>> },
    Label { name: Seq<char>, text: Seq<char> },
}

/// The four kinds of control.
#[derive(Clone, Copy, Debug, PartialEq, Eq, Structural)]
pub enum Kind {
    Group,
    Slider,
    Button,
    Label,
}

impl Node {
    /// The node's kind.
    pub open spec fn kind(self) -> Kind {
        match self {
            Node::Group { .. } => Kind::Group,
            Node::Slider { .. } => Kind::Slider,
            Node::Button { .. } => Kind::Button,
            Node::Label { .. } => Kind::Label,
        }
    }

    /// The node's name.
    pub open spec fn name(self) -> Seq<char> {
        match self {
            Node::Group { name } => name,
            Node::Slider { name, .. } => name,
            Node::Button { name, .. } => name,
            Node::Label { name, .. } => name,
        }
    }
}

/// The flat form of a tree: `(id, node)` pairs in the order in which the map
/// is walked.
pub type Entries = Seq<(Seq<i32>, Node)>;

/// `new` where it is present, else `old`.
pub open spec fn overwrite<T>(old: Option<T>, new: Option<T>) -> Option<T> {
    if new is Some {
        new
    } else {
        old
    }
}

/// The node after an update: only the fields that the message carries
/// change, and a message of another kind than the node changes nothing.
pub open spec fn updated(n: Node, m: UpdateMsgView) -> Node {
    match (n, m) {
        (
            Node::Slider { name, state, location, label },
            UpdateMsgView::Slider { state: s, location: l, label: t, .. },
        ) => Node::Slider {
            name,
            state: overwrite(state, s),
            location: overwrite(location, l),
            label: overwrite(label, t),
        },
        (Node::Button { name, state, label }, UpdateMsgView::Button { state: s, label: t, .. }) => {
            Node::Button { name, state: overwrite(state, s), label: overwrite(label, t) }
        },
        (Node::Label { name, .. }, UpdateMsgView::Label { label, .. }) => Node::Label {
            name,
            text: label,
        },
        _ => n,
    }
}

/// The message that tells a client all of a node's state; a group has none.
pub open spec fn full_update(id: Seq<i32>, n: Node) -> Option<UpdateMsgView> {
    match n {
        Node::Group { .. } => None,
        Node::Slider { state, location, label, .. } => Some(
            UpdateMsgView::Slider { control_id: id, state, location, label },
        ),
        Node::Button { state, label, .. } => Some(
            UpdateMsgView::Button { control_id: id, state, label },
        ),
        Node::Label { text, .. } => Some(UpdateMsgView::Label { control_id: id, label: text }),
    }
}

/// The message of a node's kind that changes nothing yet; a group has none.
pub open spec fn blank_update(id: Seq<i32>, n: Node) -> Option<UpdateMsgView> {
    match n {
        Node::Group { .. } => None,
        Node::Slider { .. } => Some(
            UpdateMsgView::Slider { control_id: id, state: None, location: None, label: None },
        ),
        Node::Button { .. } => Some(
            UpdateMsgView::Button { control_id: id, state: None, label: None },
        ),
        Node::Label { .. } => Some(UpdateMsgView::Label { control_id: id, label: Seq::empty() }),
    }
}

/// Every group below and including `c` has few enough children for their
/// positions to be written as `i32`.
pub open spec fn fits(c: Control) -> bool
    decreases c,
{
    match c {
        Control::Group { children, .. } => {
            &&& children.len() <= i32::MAX
            &&& forall|i: int| 0 <= i < children.len() ==> fits(#[trigger] children[i])
        },
        _ => true,
    }
}

/// Number of nodes of the tree under `c`, `c` included.
pub open spec fn node_count(c: Control) -> nat
    decreases c, 0nat,
{
    match c {
        Control::Group { children, .. } => 1 + node_count_first(children, children.len() as nat),
        _ => 1,
    }
}

/// Number of nodes under the first `n` of `cs`.
pub open spec fn node_count_first(cs: Vec<Control>, n: nat) -> nat
    decreases cs, n,
{
    if n == 0 || n > cs.len() {
        0
    } else {
        node_count_first(cs, (n - 1) as nat) + node_count(cs[n - 1])
    }
}

/// The node reached from `c` by following `path`, one child position per
/// step.
pub open spec fn node_at(c: Control, path: Seq<i32>) -> Option<Control>
    decreases path.len(),
{
    if path.len() == 0 {
        Some(c)
    } else {
        match c {
            Control::Group { children, .. } => {
                if 0 <= path[0] < children.len() {
                    node_at(children[path[0] as int], path.drop_first())
                } else {
                    None
                }
            },
            _ => None,
        }
    }
}

/// Depth-first flattening: the node itself under `path`, then child `i` and
/// all below it under `path + [i]`, children in order.
pub open spec fn flatten(c: Control, path: Seq<i32>) -> Entries
    decreases c, 0nat,
{
    match c {
        Control::Group { children, .. } => seq![(path, c.node())] + flatten_first(
            children,
            path,
            children.len() as nat,
        ),
        _ => seq![(path, c.node())],
    }
}

/// Flattening of the first `n` of `cs`, the children of the node at `path`.
pub open spec fn flatten_first(cs: Vec<Control>, path: Seq<i32>, n: nat) -> Entries
    decreases cs, n,
{
    if n == 0 || n > cs.len() {
        Seq::empty()
    } else {
        flatten_first(cs, path, (n - 1) as nat) + flatten(cs[n - 1], path.push((n - 1) as i32))
    }
}

impl Control {
    /// What this node holds by itself.
    pub open spec fn node(self) -> Node {
        match self {
            Control::Group { name, .. } => Node::Group { name: name@ },
            Control::Slider { name, state, location, label } => Node::Slider {
                name: name@,
                state,
                location: number_view(location),
                label: text_view(label),
            },
            Control::Button { name, state, label } => Node::Button {
                name: name@,
                state,
                label: text_view(label),
            },
            Control::Label { name, text } => Node::Label { name: name@, text: text@ },
        }
    }

    /// The control's name.
    pub fn name(&self) -> (r: &String)
        ensures
            r@ == self.node().name(),
    {
        match self {
            Control::Group { name, .. } => name,
            Control::Slider { name, .. } => name,
            Control::Button { name, .. } => name,
            Control::Label { name, .. } => name,
        }
    }

    /// The word that names the control's kind in a definition.
    pub fn control_type(&self) -> (r: &'static str)
        ensures
            r@ == (match self.node() {
                Node::Group { .. } => "group"@,
                Node::Slider { .. } => "slider"@,
                Node::Button { .. } => "button"@,
                Node::Label { .. } => "label"@,
            }),
    {
        match self {
            Control::Group { .. } => "group",
            Control::Slider { .. } => "slider",
            Control::Button { .. } => "button",
            Control::Label { .. } => "label",
        }
    }

    /// A copy of this node alone: a group's copy has no children.
    pub fn detached(&self) -> (r: Control)
        ensures
            r.node() == self.node(),
    {
        match self {
            Control::Group { name, .. } => Control::Group {
                name: name.clone(),
                children: Vec::new(),
            },
            Control::Slider { name, state, location, label } => Control::Slider {
                name: name.clone(),
                state: *state,
                location: clone_number(location),
                label: clone_text(label),
            },
            Control::Button { name, state, label } => Control::Button {
                name: name.clone(),
                state: *state,
                label: clone_text(label),
            },
            Control::Label { name, text } => Control::Label {
                name: name.clone(),
                text: text.clone(),
            },
        }
    }

    /// A copy of this node alone, changed as `um` says.
    pub fn with_update(&self, um: &UpdateMsg) -> (r: Control)
        ensures
            r.node() == updated(self.node(), um@),
    {
        match (self, um) {
            (
                Control::Slider { name, state, location, label },
                UpdateMsg::Slider { state: s, location: l, label: t, .. },
            ) => Control::Slider {
                name: name.clone(),
                state: if s.is_some() {
                    *s
                } else {
                    *state
                },
                location: if l.is_some() {
                    clone_number(l)
                } else {
                    clone_number(location)
                },
                label: if t.is_some() {
                    clone_text(t)
                } else {
                    clone_text(label)
                },
            },
            (Control::Button { name, state, label }, UpdateMsg::Button { state: s, label: t, .. }) => {
                Control::Button {
                    name: name.clone(),
                    state: if s.is_some() {
                        *s
                    } else {
                        *state
                    },
                    label: if t.is_some() {
                        clone_text(t)
                    } else {
                        clone_text(label)
                    },
                }
            },
            (Control::Label { name, .. }, UpdateMsg::Label { label, .. }) => Control::Label {
                name: name.clone(),
                text: label.clone(),
            },
            _ => self.detached(),
        }
    }

    /// Changes this control as `um` says: the fields that the message
    /// carries are overwritten, the others stay, and a message of another
    /// kind changes nothing. A group keeps its children.
    pub fn update(&mut self, um: &UpdateMsg)
        ensures
            final(self).node() == updated(old(self).node(), um@),
            *old(self) is Group ==> *final(self) == *old(self),
    {
        match self {
            Control::Slider { state, location, label, .. } => match um {
                UpdateMsg::Slider { state: s, location: l, label: t, .. } => {
                    if s.is_some() {
                        *state = *s;
                    }
                    if l.is_some() {
                        *location = clone_number(l);
                    }
                    if t.is_some() {
                        *label = clone_text(t);
                    }
                },
                _ => {},
            },
            Control::Button { state, label, .. } => match um {
                UpdateMsg::Button { state: s, label: t, .. } => {
                    if s.is_some() {
                        *state = *s;
                    }
                    if t.is_some() {
                        *label = clone_text(t);
                    }
                },
                _ => {},
            },
            Control::Label { text, .. } => match um {
                UpdateMsg::Label { label, .. } => {
                    *text = label.clone();
                },
                _ => {},
            },
            Control::Group { .. } => {},
        }
    }

    /// The message that tells a client all of this control's state.
    pub fn full_update(&self, id: &Vec<i32>) -> (r: Option<UpdateMsg>)
        ensures
            update_view(r) == full_update(id@, self.node()),
    {
        match self {
            Control::Group { .. } => None,
            Control::Slider { state, location, label, .. } => Some(
                UpdateMsg::Slider {
                    control_id: clone_id(id),
                    state: *state,
                    location: clone_number(location),
                    label: clone_text(label),
                },
            ),
            Control::Button { state, label, .. } => Some(
                UpdateMsg::Button {
                    control_id: clone_id(id),
                    state: *state,
                    label: clone_text(label),
                },
            ),
            Control::Label { text, .. } => Some(
                UpdateMsg::Label { control_id: clone_id(id), label: text.clone() },
            ),
        }
    }

    /// The message of this control's kind that changes nothing yet.
    pub fn empty_update(&self, id: &Vec<i32>) -> (r: Option<UpdateMsg>)
        ensures
            update_view(r) == blank_update(id@, self.node()),
    {
        match self {
            Control::Group { .. } => None,
            Control::Slider { .. } => Some(
                UpdateMsg::Slider {
                    control_id: clone_id(id),
                    state: None,
                    location: None,
                    label: None,
                },
            ),
            Control::Button { .. } => Some(
                UpdateMsg::Button { control_id: clone_id(id), state: None, label: None },
            ),
            Control::Label { .. } => Some(
                UpdateMsg::Label { control_id: clone_id(id), label: String::new() },
            ),
        }
    }
}

/// The id of the control that a message addresses.
pub fn get_um_id(um: &UpdateMsg) -> (r: &Vec<i32>)
    ensures
        r@ == um@.control_id(),
{
    um.control_id()
}

/// View of an optional message.
pub open spec fn update_view(m: Option<UpdateMsg>) -> Option<UpdateMsgView> {
    match m {
        Some(x) => Some(x@),
        None => None,
    }
}

/// One entry of the flat map.
#[derive(Debug, PartialEq, Eq)]
pub struct Entry {
    pub id: Vec<i32>,
    pub control: Control,
}

/// What a sequence of entries stands for.
pub open spec fn entries_view(s: Seq<Entry>) -> Entries {
    Seq::new(s.len(), |i: int| (s[i].id@, s[i].control.node()))
}

/// Position of the first entry at or after `from` whose id is `id`.
pub open spec fn position(s: Entries, id: Seq<i32>, from: int) -> Option<int>
    decreases s.len() - from,
{
    if from < 0 || from >= s.len() {
        None
    } else if s[from].0 == id {
        Some(from)
    } else {
        position(s, id, from + 1)
    }
}

/// No id occurs twice.
pub open spec fn distinct_ids(s: Entries) -> bool {
    forall|i: int, j: int| 0 <= i < j < s.len() ==> s[i].0 != s[j].0
}

/// The entries after `m` is applied: the entry that `m` addresses is
/// updated, and where there is none nothing changes.
pub open spec fn applied(s: Entries, m: UpdateMsgView) -> Entries {
    match position(s, m.control_id(), 0) {
        Some(i) => s.update(i, (s[i].0, updated(s[i].1, m))),
        None => s,
    }
}

/// The messages that bring a new client up to date: one for each control
/// that has state, in the order of the entries.
pub open spec fn snapshot(s: Entries) -> Seq<UpdateMsgView>
    decreases s.len(),
{
    if s.len() == 0 {
        Seq::empty()
    } else {
        let rest = snapshot(s.drop_last());
        match full_update(s.last().0, s.last().1) {
            Some(m) => rest.push(m),
            None => rest,
        }
    }
}

/// What a sequence of messages stands for.
pub open spec fn updates_view(s: Seq<UpdateMsg>) -> Seq<UpdateMsgView> {
    Seq::new(s.len(), |i: int| s[i]@)
}

/// What `position` finds is an entry with that id, and the first such.
pub proof fn lemma_position(s: Entries, id: Seq<i32>, from: int)
    requires
        0 <= from,
    ensures
        match position(s, id, from) {
            Some(i) => from <= i < s.len() && s[i].0 == id && forall|j: int|
                from <= j < i ==> s[j].0 != id,
            None => forall|j: int| from <= j < s.len() ==> s[j].0 != id,
        },
    decreases s.len() - from,
{
    if from < s.len() && s[from].0 != id {
        lemma_position(s, id, from + 1);
    }
}

/// The flat map from control id to control, in depth-first order of the tree
/// that it was built from.
#[derive(Debug, PartialEq, Eq)]
pub struct ControlMap {
    pub entries: Vec<Entry>,
}

impl View for ControlMap {
    type V = Entries;

    open spec fn view(&self) -> Entries {
        entries_view(self.entries@)
    }
}

impl ControlMap {
    /// Well-formedness: the map holds each id once. The map of a tree is
    /// well-formed, and updates keep it so.
    pub open spec fn wf(&self) -> bool {
        distinct_ids(self@)
    }

    /// Number of entries.
    pub fn len(&self) -> (r: usize)
        ensures
            r == self@.len(),
    {
        self.entries.len()
    }

    /// Index of the entry with the given id.
    pub fn find(&self, id: &Vec<i32>) -> (r: Option<usize>)
        ensures
            match r {
                Some(i) => position(self@, id@, 0) == Some(i as int) && i < self.entries.len(),
                None => position(self@, id@, 0) is None,
            },
    {
        let mut i: usize = 0;
        while i < self.entries.len()
            invariant
                i <= self.entries.len(),
                position(self@, id@, 0) == position(self@, id@, i as int),
            decreases self.entries.len() - i,
        {
            if same_id(&self.entries[i].id, id) {
                return Some(i);
            }
            i = i + 1;
        }
        None
    }

    /// The control with the given id.
    pub fn get(&self, id: &Vec<i32>) -> (r: Option<&Control>)
        ensures
            match r {
                Some(c) => position(self@, id@, 0) is Some && c.node() == self@[position(
                    self@,
                    id@,
                    0,
                )->0].1,
                None => position(self@, id@, 0) is None,
            },
    {
        match self.find(id) {
            Some(i) => Some(&self.entries[i].control),
            None => None,
        }
    }

    /// Applies `msg` to the control it addresses. A message for an id that
    /// the map does not hold changes nothing, and is no error.
    pub fn apply(&mut self, msg: &UpdateMsg) -> (found: bool)
        ensures
            final(self)@ == applied(old(self)@, msg@),
            found == position(old(self)@, msg@.control_id(), 0) is Some,
            !found ==> final(self)@ == old(self)@,
            old(self).wf() ==> final(self).wf(),
    {
        proof {
            lemma_applied_keeps_outline(old(self)@, msg@);
        }
        match self.find(msg.control_id()) {
            Some(i) => {
                let entry = &self.entries[i];
                let changed = Entry {
                    id: clone_id(&entry.id),
                    control: entry.control.with_update(msg),
                };
                self.entries.set(i, changed);
                proof {
                    assert(self@ =~= applied(old(self)@, msg@));
                }
                true
            },
            None => false,
        }
    }
}

/// Tells whether every group of the tree has few enough children for ids.
pub fn check_fits(c: &Control) -> (r: bool)
    ensures
        r == fits(*c),
    decreases c,
{
    match c {
        Control::Group { children, .. } => {
            if children.len() > 2147483647 {
                return false;
            }
            let mut i: usize = 0;
            while i < children.len()
                invariant
                    i <= children.len(),
                    children.len() <= i32::MAX,
                    c matches Control::Group { children: cs, .. } && cs == children,
                    forall|k: int| 0 <= k < i ==> fits(#[trigger] children[k]),
                decreases children.len() - i,
            {
                if !check_fits(&children[i]) {
                    return false;
                }
                i = i + 1;
            }
            true
        },
        _ => true,
    }
}

/// Adds the tree under `c`, which stands at `path`, to `out`.
fn add_controls(c: &Control, path: &Vec<i32>, out: &mut Vec<Entry>)
    requires
        fits(*c),
    ensures
        entries_view(final(out)@) == entries_view(old(out)@) + flatten(*c, path@),
    decreases c,
{
    let ghost before = entries_view(out@);
    out.push(Entry { id: clone_id(path), control: c.detached() });
    proof {
        assert(entries_view(out@) =~= before + seq![(path@, c.node())]);
    }
    match c {
        Control::Group { children, .. } => {
            let mut i: usize = 0;
            while i < children.len()
                invariant
                    i <= children.len(),
                    fits(*c),
                    c matches Control::Group { children: cs, .. } && cs == children,
                    entries_view(out@) == before + seq![(path@, c.node())] + flatten_first(
                        *children,
                        path@,
                        i as nat,
                    ),
                decreases children.len() - i,
            {
                let mut p = clone_id(path);
                p.push(i as i32);
                assert(fits(children[i as int]));
                add_controls(&children[i], &p, out);
                proof {
                    assert(p@ == path@.push(i as i32));
                    assert(entries_view(out@) =~= before + seq![(path@, c.node())]
                        + flatten_first(*children, path@, (i + 1) as nat));
                }
                i = i + 1;
            }
        },
        _ => {},
    }
}

/// Builds the flat map of the tree under `root`: every node, groups
/// included, under its path from the root, in depth-first order. A group's
/// entry holds the group alone; its children are entries of their own.
pub fn make_control_map(root: &Control) -> (r: ControlMap)
    requires
        fits(*root),
    ensures
        r@ == flatten(*root, Seq::empty()),
        r@.len() == node_count(*root),
        r.wf(),
{
    let mut out: Vec<Entry> = Vec::new();
    let path: Vec<i32> = Vec::new();
    add_controls(root, &path, &mut out);
    proof {
        assert(entries_view(Seq::<Entry>::empty()) =~= Seq::empty());
        assert(path@ =~= Seq::empty());
        assert(entries_view(out@) =~= flatten(*root, Seq::empty()));
        lemma_flatten_len(*root, Seq::empty());
        assert forall|i: int, j: int| 0 <= i < j < entries_view(out@).len() implies entries_view(
            out@,
        )[i].0 != entries_view(out@)[j].0 by {
            lemma_flatten_distinct(*root, Seq::empty(), i, j);
        }
    }
    ControlMap { entries: out }
}

/// Flattening yields one entry for each node.
pub proof fn lemma_flatten_len(c: Control, path: Seq<i32>)
    ensures
        flatten(c, path).len() == node_count(c),
    decreases c, 0nat,
{
    match c {
        Control::Group { children, .. } => {
            lemma_flatten_first_len(children, path, children.len() as nat);
        },
        _ => {},
    }
}

/// Flattening the first `n` children yields one entry for each node under
/// them.
pub proof fn lemma_flatten_first_len(cs: Vec<Control>, path: Seq<i32>, n: nat)
    ensures
        flatten_first(cs, path, n).len() == node_count_first(cs, n),
    decreases cs, n,
{
    if n == 0 || n > cs.len() {
    } else {
        lemma_flatten_first_len(cs, path, (n - 1) as nat);
        lemma_flatten_len(cs[n - 1], path.push((n - 1) as i32));
    }
}

/// The state messages of all controls of `cm` that have state, in the
/// map's order.
pub fn cm_to_update_array(cm: &ControlMap) -> (r: Vec<UpdateMsg>)
    ensures
        updates_view(r@) == snapshot(cm@),
{
    let mut out: Vec<UpdateMsg> = Vec::new();
    let mut i: usize = 0;
    proof {
        assert(cm@.take(0) =~= Seq::empty());
        assert(updates_view(out@) =~= Seq::empty());
    }
    while i < cm.entries.len()
        invariant
            i <= cm.entries.len(),
            updates_view(out@) == snapshot(cm@.take(i as int)),
        decreases cm.entries.len() - i,
    {
        let entry = &cm.entries[i];
        let ghost prev = updates_view(out@);
        proof {
            assert(cm@.take(i + 1).drop_last() =~= cm@.take(i as int));
            assert(cm@.take(i + 1).last() == cm@[i as int]);
        }
        match entry.control.full_update(&entry.id) {
            Some(m) => {
                out.push(m);
                proof {
                    assert(updates_view(out@) =~= prev.push(m@));
                }
            },
            None => {},
        }
        i = i + 1;
    }
    proof {
        assert(cm@.take(cm.entries.len() as int) =~= cm@);
    }
    out
}

/// The names of a flat map: `(name, id)` pairs in the map's order.
pub type Names = Seq<(Seq<char>, Seq<i32>)>;

/// The name of each entry with its id, in the order of the entries.
pub open spec fn named(s: Entries) -> Names {
    Seq::new(s.len(), |i: int| (s[i].1.name(), s[i].0))
}

/// The id that a name resolves to: where several controls bear the name,
/// the one that comes last in the map.
pub open spec fn last_named(s: Names, name: Seq<char>) -> Option<Seq<i32>>
    decreases s.len(),
{
    if s.len() == 0 {
        None
    } else if s.last().0 == name {
        Some(s.last().1)
    } else {
        last_named(s.drop_last(), name)
    }
}

/// The names as a map: each entry inserted in order, so that a later entry
/// replaces an earlier one of the same name.
pub open spec fn name_map(s: Names) -> Map<Seq<char>, Seq<i32>>
    decreases s.len(),
{
    if s.len() == 0 {
        Map::empty()
    } else {
        name_map(s.drop_last()).insert(s.last().0, s.last().1)
    }
}

/// A name resolves to what the map holds for it: the id that was written
/// last under that name.
pub proof fn lemma_name_map(s: Names, name: Seq<char>)
    ensures
        name_map(s).contains_key(name) <==> last_named(s, name) is Some,
        name_map(s).contains_key(name) ==> last_named(s, name) == Some(name_map(s)[name]),
    decreases s.len(),
{
    if s.len() > 0 {
        lemma_name_map(s.drop_last(), name);
    }
}

/// What a sequence of name entries stands for.
pub open spec fn names_view(s: Seq<(String, Vec<i32>)>) -> Names {
    Seq::new(s.len(), |i: int| (s[i].0@, s[i].1@))
}

/// View of a control id that may be absent.
pub open spec fn opt_id_view(id: Option<Vec<i32>>) -> Option<Seq<i32>> {
    match id {
        Some(x) => Some(x@),
        None => None,
    }
}

/// The map from control name to control id.
#[derive(Debug, PartialEq, Eq)]
pub struct ControlNameMap {
    pub entries: Vec<(String, Vec<i32>)>,
}

impl View for ControlNameMap {
    type V = Names;

    open spec fn view(&self) -> Names {
        names_view(self.entries@)
    }
}

impl ControlNameMap {
    /// The id of the control with the given name.
    pub fn get(&self, name: &str) -> (r: Option<Vec<i32>>)
        ensures
            opt_id_view(r) == last_named(self@, name@),
    {
        let wanted: String = name.to_owned();
        let mut i: usize = self.entries.len();
        proof {
            assert(self@.take(i as int) =~= self@);
        }
        while i > 0
            invariant
                i <= self.entries.len(),
                wanted@ == name@,
                last_named(self@, name@) == last_named(self@.take(i as int), name@),
            decreases i,
        {
            proof {
                assert(self@.take(i as int).drop_last() =~= self@.take(i - 1));
                assert(self@.take(i as int).last() == self@[i - 1]);
            }
            i = i - 1;
            if self.entries[i].0 == wanted {
                return Some(clone_id(&self.entries[i].1));
            }
        }
        None
    }
}

/// Derives the name map of a control map. Where two controls bear one
/// name, the later one is the one that the name resolves to.
pub fn control_map_to_name_map(cm: &ControlMap) -> (r: ControlNameMap)
    ensures
        r@ == named(cm@),
{
    let mut out: Vec<(String, Vec<i32>)> = Vec::new();
    let mut i: usize = 0;
    while i < cm.entries.len()
        invariant
            i <= cm.entries.len(),
            out@.len() == i,
            forall|k: int| 0 <= k < i ==> (#[trigger] out@[k]).0@ == cm@[k].1.name() && out@[k].1@ == cm@[k].0,
        decreases cm.entries.len() - i,
    {
        let entry = &cm.entries[i];
        out.push((entry.control.name().clone(), clone_id(&entry.id)));
        i = i + 1;
    }
    proof {
        assert(names_view(out@) =~= named(cm@));
    }
    ControlNameMap { entries: out }
}

/// What a definition fixes of a flat map: the id, the name and the kind of
/// each entry, in order.
pub open spec fn outline(s: Entries) -> Seq<(Seq<i32>, Seq<char>, Kind)> {
    Seq::new(s.len(), |i: int| (s[i].0, s[i].1.name(), s[i].1.kind()))
}

/// Applying an update keeps every id, every name and every kind: only
/// state changes.
pub proof fn lemma_applied_keeps_outline(s: Entries, m: UpdateMsgView)
    ensures
        outline(applied(s, m)) == outline(s),
        named(applied(s, m)) == named(s),
        applied(s, m).len() == s.len(),
        distinct_ids(s) ==> distinct_ids(applied(s, m)),
{
    lemma_position(s, m.control_id(), 0);
    assert(named(applied(s, m)) =~= named(s));
    assert(outline(applied(s, m)) =~= outline(s));
    assert forall|i: int| 0 <= i < s.len() implies applied(s, m)[i].0 == s[i].0 by {}
}

/// Two lists with the same ids hold an id at the same place.
pub proof fn lemma_position_same_ids(a: Entries, b: Entries, id: Seq<i32>, from: int)
    requires
        a.len() == b.len(),
        forall|i: int| 0 <= i < a.len() ==> a[i].0 == b[i].0,
    ensures
        position(a, id, from) == position(b, id, from),
    decreases a.len() - from,
{
    if 0 <= from < a.len() && a[from].0 != id {
        lemma_position_same_ids(a, b, id, from + 1);
    }
}

/// Updating a node twice by one message is updating it once.
pub proof fn lemma_updated_idempotent(n: Node, m: UpdateMsgView)
    ensures
        updated(updated(n, m), m) == updated(n, m),
{
}

/// Applying a message twice is applying it once.
pub proof fn lemma_applied_idempotent(s: Entries, m: UpdateMsgView)
    ensures
        applied(applied(s, m), m) == applied(s, m),
{
    let t = applied(s, m);
    lemma_position(s, m.control_id(), 0);
    assert forall|i: int| 0 <= i < s.len() implies s[i].0 == t[i].0 by {}
    lemma_position_same_ids(t, s, m.control_id(), 0);
    match position(s, m.control_id(), 0) {
        Some(i) => {
            lemma_updated_idempotent(s[i].1, m);
            assert(applied(t, m) =~= t);
        },
        None => {},
    }
}

/// An update for an id that the map does not hold changes nothing.
pub proof fn lemma_unknown_id_unchanged(s: Entries, m: UpdateMsgView)
    requires
        forall|i: int| 0 <= i < s.len() ==> s[i].0 != m.control_id(),
    ensures
        applied(s, m) == s,
{
    lemma_position(s, m.control_id(), 0);
}

/// An update changes the control it addresses as the message says, and no
/// other entry.
pub proof fn lemma_applied_entries(s: Entries, m: UpdateMsgView, i: int)
    requires
        0 <= i < s.len(),
    ensures
        applied(s, m).len() == s.len(),
        applied(s, m)[i].0 == s[i].0,
        applied(s, m)[i].1 == s[i].1 || (s[i].0 == m.control_id() && applied(s, m)[i].1 == updated(
            s[i].1,
            m,
        )),
{
    lemma_position(s, m.control_id(), 0);
}

/// Every entry of a flattened tree stands under the path of its node:
/// its id starts with the path of the tree's root, and following the rest
/// of it from the root leads to the node that the entry holds.
pub proof fn lemma_flatten_entry(c: Control, path: Seq<i32>, k: int)
    requires
        fits(c),
        0 <= k < flatten(c, path).len(),
    ensures
        ({
            let e = flatten(c, path)[k];
            let d = path.len() as int;
            &&& e.0.len() >= d
            &&& e.0.take(d) == path
            &&& node_at(c, e.0.skip(d)) matches Some(x) && x.node() == e.1
        }),
    decreases c, 0nat,
{
    let e = flatten(c, path)[k];
    let d = path.len() as int;
    if k == 0 {
        assert(e.0 == path);
        assert(path.take(d) =~= path);
        assert(path.skip(d) =~= Seq::empty());
    } else {
        match c {
            Control::Group { children, .. } => {
                lemma_flatten_first_entry(children, path, children.len() as nat, k - 1);
                let q = e.0.skip(d);
                assert(q[0] == e.0[d]);
                assert(q.drop_first() =~= e.0.skip(d + 1));
            },
            _ => {},
        }
    }
}

/// Every entry of the flattened first `n` children stands under the path
/// of one of them.
pub proof fn lemma_flatten_first_entry(cs: Vec<Control>, path: Seq<i32>, n: nat, k: int)
    requires
        n <= cs.len() <= i32::MAX,
        forall|i: int| 0 <= i < cs.len() ==> fits(#[trigger] cs[i]),
        0 <= k < flatten_first(cs, path, n).len(),
    ensures
        ({
            let e = flatten_first(cs, path, n)[k];
            let d = path.len() as int;
            &&& e.0.len() > d
            &&& e.0.take(d) == path
            &&& 0 <= e.0[d] < n
            &&& node_at(cs[e.0[d] as int], e.0.skip(d + 1)) matches Some(x) && x.node() == e.1
        }),
    decreases cs, n,
{
    let d = path.len() as int;
    let a = flatten_first(cs, path, (n - 1) as nat);
    let p = path.push((n - 1) as i32);
    if k < a.len() {
        lemma_flatten_first_entry(cs, path, (n - 1) as nat, k);
    } else {
        lemma_flatten_entry(cs[n - 1], p, k - a.len());
        let e = flatten_first(cs, path, n)[k];
        assert(e.0.take(d) =~= e.0.take(d + 1).take(d));
        assert(p.take(d) =~= path);
        assert(e.0[d] == e.0.take(d + 1)[d]);
    }
}

/// No two entries of a flattened tree have the same id.
pub proof fn lemma_flatten_distinct(c: Control, path: Seq<i32>, k1: int, k2: int)
    requires
        fits(c),
        0 <= k1 < k2 < flatten(c, path).len(),
    ensures
        flatten(c, path)[k1].0 != flatten(c, path)[k2].0,
    decreases c, 0nat,
{
    match c {
        Control::Group { children, .. } => {
            if k1 == 0 {
                lemma_flatten_first_entry(children, path, children.len() as nat, k2 - 1);
            } else {
                lemma_flatten_first_distinct(children, path, children.len() as nat, k1 - 1, k2 - 1);
            }
        },
        _ => {},
    }
}

/// No two entries of the flattened first `n` children have the same id.
pub proof fn lemma_flatten_first_distinct(
    cs: Vec<Control>,
    path: Seq<i32>,
    n: nat,
    k1: int,
    k2: int,
)
    requires
        n <= cs.len() <= i32::MAX,
        forall|i: int| 0 <= i < cs.len() ==> fits(#[trigger] cs[i]),
        0 <= k1 < k2 < flatten_first(cs, path, n).len(),
    ensures
        flatten_first(cs, path, n)[k1].0 != flatten_first(cs, path, n)[k2].0,
    decreases cs, n,
{
    let d = path.len() as int;
    let a = flatten_first(cs, path, (n - 1) as nat);
    let p = path.push((n - 1) as i32);
    if k2 < a.len() {
        lemma_flatten_first_distinct(cs, path, (n - 1) as nat, k1, k2);
    } else if k1 >= a.len() {
        lemma_flatten_distinct(cs[n - 1], p, k1 - a.len(), k2 - a.len());
    } else {
        lemma_flatten_first_entry(cs, path, (n - 1) as nat, k1);
        lemma_flatten_entry(cs[n - 1], p, k2 - a.len());
        let e = flatten_first(cs, path, n)[k2];
        assert(e.0[d] == e.0.take(d + 1)[d]);
    }
}

/// The flat map of a tree holds each node under its path from the root,
/// and no id twice: following an entry's id from the root leads to the
/// node that the entry holds.
pub proof fn lemma_map_of_tree(root: Control, k1: int, k2: int)
    requires
        fits(root),
        0 <= k1 < flatten(root, Seq::empty()).len(),
        0 <= k2 < flatten(root, Seq::empty()).len(),
    ensures
        flatten(root, Seq::empty()).len() == node_count(root),
        node_at(root, flatten(root, Seq::empty())[k1].0) matches Some(x) && x.node() == flatten(
            root,
            Seq::empty(),
        )[k1].1,
        k1 != k2 ==> flatten(root, Seq::empty())[k1].0 != flatten(root, Seq::empty())[k2].0,
{
    let path = Seq::<i32>::empty();
    lemma_flatten_len(root, path);
    lemma_flatten_entry(root, path, k1);
    assert(flatten(root, path)[k1].0.skip(0) =~= flatten(root, path)[k1].0);
    if k1 < k2 {
        lemma_flatten_distinct(root, path, k1, k2);
    } else if k2 < k1 {
        lemma_flatten_distinct(root, path, k2, k1);
    }
}

} // verus!
