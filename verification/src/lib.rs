//! A control-state synchronisation core: a tree of named controls, the update
//! protocol that changes them, and the registry that decides who hears of a
//! change. The server here is a value: each operation changes it and says
//! what is to be sent to whom; sending is the caller's part.

pub mod broadcaster;
pub mod control_updates;
pub mod controls;
pub mod json;

use vstd::prelude::*;
use crate::broadcaster::{peers_view, without, Broadcaster};
use crate::control_updates::{
    number_view, text_view, ButtonState, Number, SliderState, UpdateMsg, UpdateMsgView,
};
use crate::controls::{
    applied, blank_update, cm_to_update_array, control_map_to_name_map, flatten, last_named,
    lemma_applied_keeps_outline, make_control_map, named, opt_id_view, outline, position,
    snapshot, update_view, ControlMap, ControlNameMap, Entries,
};
use crate::json::{
    decode_update_text, decoded_frame, defines, deserialize_root, encode_update_text, encoded,
    encoded_all, json_text, merge_state, parse_json, parsed_json, render_json, with_state,
    ControlTree,
};

verus! {

/// Why a text is no control definition.
#[derive(Clone, Copy, Debug, PartialEq, Eq, Structural)]
pub enum DefinitionError {
    /// The text is no JSON.
    NotJson,
    /// The document is JSON, and defines no control surface.
    NotDefinition,
}

/// A message, and the peers it is to be delivered to.
#[derive(Debug, PartialEq, Eq)]
pub struct Outgoing {
    pub message: String,
    pub recipients: Vec<String>,
}

/// What became of a text frame: the update it held, if any, and the peers
/// that the frame is to be passed on to, as it came.
#[derive(Debug, PartialEq, Eq)]
pub struct Received {
    pub decoded: Option<UpdateMsg>,
    pub recipients: Vec<String>,
}

/// The published control surface: the flat map, the names, and the
/// definition text that both were built from.
#[derive(Debug, PartialEq, Eq)]
pub struct ControlInfo {
    pub cm: ControlMap,
    pub cnm: ControlNameMap,
    pub guijson: String,
}

/// The embedding application's hook: called with each update that a client
/// sent, and the surface as it then stands.
pub trait ControlUpdateProcessor: Send {
    fn on_update_received(&mut self, msg: &UpdateMsg, ci: &ControlInfo);
}

/// Where a connection stands.
#[derive(Clone, Copy, Debug, PartialEq, Eq, Structural)]
pub enum ConnState {
    /// The handshake is under way; the first document is not yet sent.
    Connecting,
    /// Frames are taken, one at a time and in the order they come.
    Open,
    /// A close frame came; its acknowledgement is to be sent.
    Closing,
    /// The connection has ended.
    Closed,
}

/// A frame that came in on a connection.
#[derive(Debug, PartialEq, Eq)]
pub enum Frame {
    Close,
    Ping(Vec<u8>),
    Text(String),
    Other,
}

/// What a frame calls for.
#[derive(Debug, PartialEq, Eq)]
pub enum Action {
    /// Acknowledge the close, and end the connection.
    Close,
    /// Answer with a pong that carries this payload.
    Pong(Vec<u8>),
    /// Pass the frame on as it came, and call the application's hook.
    Forward(Received),
    /// Nothing.
    Ignore,
}

/// The answer to a frame: what to do, and where the connection then
/// stands.
#[derive(Debug, PartialEq, Eq)]
pub struct Step {
    pub action: Action,
    pub state: ConnState,
}

/// The text that a new client is sent first.
pub open spec fn welcome_text(definition: Seq<char>, s: Entries) -> Option<Seq<char>> {
    match parsed_json(definition) {
        Some(doc) => json_text(with_state(doc, encoded_all(snapshot(s)))),
        None => None,
    }
}

/// The error that a definition text meets, if any.
pub open spec fn definition_error(text: Seq<char>) -> Option<DefinitionError> {
    match parsed_json(text) {
        None => Some(DefinitionError::NotJson),
        Some(j) => if exists|t: ControlTree| defines(j, t) {
            None
        } else {
            Some(DefinitionError::NotDefinition)
        },
    }
}

/// The name of the control with the given id.
pub open spec fn name_of(s: Entries, id: Seq<i32>) -> Option<Seq<char>> {
    match position(s, id, 0) {
        Some(i) => Some(s[i].1.name()),
        None => None,
    }
}

/// Whether `out` is what an update announces: the message's wire text for
/// every peer, where the map holds the control and the text can be
/// written; nothing otherwise.
pub open spec fn announced(
    before: Entries,
    peers: Seq<Seq<char>>,
    m: UpdateMsgView,
    out: Option<Outgoing>,
) -> bool {
    match (position(before, m.control_id(), 0), json_text(encoded(m))) {
        (Some(_), Some(t)) => out matches Some(o) && o.message@ == t && peers_view(o.recipients@)
            == peers,
        _ => out is None,
    }
}

impl ControlInfo {
    /// The three parts agree: the names are those derived from the map,
    /// and the map has the ids, names and kinds of the tree that the
    /// definition text defines. Only the state of the controls may differ
    /// from what the text gave them.
    pub open spec fn agrees(&self) -> bool {
        &&& self.cm.wf()
        &&& self.cnm@ == named(self.cm@)
        &&& parsed_json(self.guijson@) matches Some(j)
        &&& exists|t: ControlTree|
            defines(j, t) && outline(self.cm@) == outline(flatten(t.root_control, Seq::empty()))
    }

    /// The three parts are those of one definition text: the map is the
    /// flattening of the tree that the text defines, the names are derived
    /// from the map, and the text is kept as it came.
    pub open spec fn built_from(&self, text: Seq<char>) -> bool {
        &&& self.guijson@ == text
        &&& self.cm.wf()
        &&& self.cnm@ == named(self.cm@)
        &&& parsed_json(text) matches Some(j)
        &&& exists|t: ControlTree| defines(j, t) && self.cm@ == flatten(t.root_control, Seq::empty())
    }

    /// Builds the surface that a definition text defines.
    pub fn from_definition(text: &str) -> (r: Result<ControlInfo, DefinitionError>)
        ensures
            match r {
                Ok(ci) => definition_error(text@) is None && ci.built_from(text@),
                Err(e) => definition_error(text@) == Some(e),
            },
    {
        let doc = match parse_json(text) {
            Some(j) => j,
            None => { return Err(DefinitionError::NotJson); },
        };
        let tree = match deserialize_root(&doc) {
            Some(t) => t,
            None => { return Err(DefinitionError::NotDefinition); },
        };
        let cm = make_control_map(&tree.root_control);
        let cnm = control_map_to_name_map(&cm);
        let ci = ControlInfo { cm, cnm, guijson: text.to_owned() };
        proof {
            assert(defines(doc@, tree) && ci.cm@ == flatten(tree.root_control, Seq::empty()));
        }
        Ok(ci)
    }

    /// The name of the control with the given id.
    pub fn get_name(&self, id: &Vec<i32>) -> (r: Option<String>)
        ensures
            text_view(r) == name_of(self.cm@, id@),
    {
        match self.cm.get(id) {
            Some(ctrl) => Some(ctrl.name().clone()),
            None => None,
        }
    }
}

/// The shared state of the server: the surface, and the registry of
/// connected peers.
#[derive(Debug, PartialEq, Eq)]
pub struct ControlServer {
    pub ci: ControlInfo,
    pub bc: Broadcaster,
}

impl ControlServer {
    /// `after` is this server after the update `m`, announced by `out`:
    /// the control that `m` addresses is changed, and nothing else.
    pub open spec fn updated_by(
        self,
        after: ControlServer,
        m: UpdateMsgView,
        out: Option<Outgoing>,
    ) -> bool {
        &&& after.ci.cm@ == applied(self.ci.cm@, m)
        &&& after.ci.cnm == self.ci.cnm
        &&& after.ci.guijson == self.ci.guijson
        &&& after.bc == self.bc
        &&& announced(self.ci.cm@, self.bc@, m, out)
    }

    /// `after` holds what this server holds.
    pub open spec fn same_as(self, after: ControlServer) -> bool {
        &&& after.ci.cm@ == self.ci.cm@
        &&& after.ci.cnm == self.ci.cnm
        &&& after.ci.guijson == self.ci.guijson
        &&& after.bc == self.bc
    }

    /// A server for the surface that a definition text defines, with no
    /// peer connected yet.
    pub fn new(guistring: &str) -> (r: Result<ControlServer, DefinitionError>)
        ensures
            match r {
                Ok(s) => definition_error(guistring@) is None && s.ci.built_from(guistring@)
                    && s.bc@ == Seq::<Seq<char>>::empty(),
                Err(e) => definition_error(guistring@) == Some(e),
            },
    {
        match ControlInfo::from_definition(guistring) {
            Ok(ci) => Ok(ControlServer { ci, bc: Broadcaster::new() }),
            Err(e) => Err(e),
        }
    }

    /// The id of the control with the given name.
    pub fn get_cid_by_name(&self, name: &str) -> (r: Option<Vec<i32>>)
        ensures
            opt_id_view(r) == last_named(self.ci.cnm@, name@),
    {
        self.ci.cnm.get(name)
    }

    /// The name of the control with the given id.
    pub fn get_name(&self, id: &Vec<i32>) -> (r: Option<String>)
        ensures
            text_view(r) == name_of(self.ci.cm@, id@),
    {
        self.ci.get_name(id)
    }

    /// A message for the control with the given name that changes nothing
    /// yet: `None` where no control bears the name, the map does not hold
    /// its id, or the control is a group.
    pub fn make_update_msg(&self, name: &str) -> (r: Option<UpdateMsg>)
        ensures
            update_view(r) == match last_named(self.ci.cnm@, name@) {
                Some(id) => match position(self.ci.cm@, id, 0) {
                    Some(i) => blank_update(id, self.ci.cm@[i].1),
                    None => None,
                },
                None => None,
            },
    {
        match self.ci.cnm.get(name) {
            Some(cid) => match self.ci.cm.get(&cid) {
                Some(ctrl) => ctrl.empty_update(&cid),
                None => None,
            },
            None => None,
        }
    }

    /// Applies an update and says what to send: where the map holds the
    /// control, the message's wire text, for every peer.
    pub fn update(&mut self, updmsg: &UpdateMsg) -> (r: Option<Outgoing>)
        ensures
            old(self).updated_by(*final(self), updmsg@, r),
    {
        let found = self.ci.cm.apply(updmsg);
        if !found {
            return None;
        }
        match encode_update_text(updmsg) {
            Some(s) => Some(Outgoing { message: s, recipients: self.bc.broadcast() }),
            None => None,
        }
    }

    /// Sets the text of the label with the given name. An unknown name
    /// changes nothing.
    pub fn update_label(&mut self, name: &str, label: &str) -> (r: Option<Outgoing>)
        ensures
            match last_named(old(self).ci.cnm@, name@) {
                Some(id) => old(self).updated_by(
                    *final(self),
                    UpdateMsgView::Label { control_id: id, label: label@ },
                    r,
                ),
                None => old(self).same_as(*final(self)) && r is None,
            },
    {
        match self.get_cid_by_name(name) {
            Some(cid) => {
                let msg = UpdateMsg::Label { control_id: cid, label: label.to_owned() };
                self.update(&msg)
            },
            None => None,
        }
    }

    /// Changes the button with the given name in the fields that are
    /// present. An unknown name changes nothing.
    pub fn update_button(
        &mut self,
        name: &str,
        state: Option<ButtonState>,
        label: Option<String>,
    ) -> (r: Option<Outgoing>)
        ensures
            match last_named(old(self).ci.cnm@, name@) {
                Some(id) => old(self).updated_by(
                    *final(self),
                    UpdateMsgView::Button { control_id: id, state, label: text_view(label) },
                    r,
                ),
                None => old(self).same_as(*final(self)) && r is None,
            },
    {
        match self.get_cid_by_name(name) {
            Some(cid) => {
                let msg = UpdateMsg::Button { control_id: cid, state, label };
                self.update(&msg)
            },
            None => None,
        }
    }

    /// Changes the slider with the given name in the fields that are
    /// present. An unknown name changes nothing.
    pub fn update_slider(
        &mut self,
        name: &str,
        state: Option<SliderState>,
        location: Option<Number>,
        label: Option<String>,
    ) -> (r: Option<Outgoing>)
        ensures
            match last_named(old(self).ci.cnm@, name@) {
                Some(id) => old(self).updated_by(
                    *final(self),
                    UpdateMsgView::Slider {
                        control_id: id,
                        state,
                        location: number_view(location),
                        label: text_view(label),
                    },
                    r,
                ),
                None => old(self).same_as(*final(self)) && r is None,
            },
    {
        match self.get_cid_by_name(name) {
            Some(cid) => {
                let msg = UpdateMsg::Slider { control_id: cid, state, location, label };
                self.update(&msg)
            },
            None => None,
        }
    }

    /// Replaces the surface by the one that a definition text defines, all
    /// three parts at once, and says to send the text to every peer. A text
    /// that defines none is an error, and changes nothing.
    pub fn load_gui_string(&mut self, guistring: &str) -> (r: Result<Outgoing, DefinitionError>)
        ensures
            final(self).bc == old(self).bc,
            match r {
                Ok(o) => {
                    &&& definition_error(guistring@) is None
                    &&& final(self).ci.built_from(guistring@)
                    &&& o.message@ == guistring@
                    &&& peers_view(o.recipients@) == old(self).bc@
                },
                Err(e) => definition_error(guistring@) == Some(e) && final(self).ci == old(self).ci,
            },
    {
        match ControlInfo::from_definition(guistring) {
            Ok(ci) => {
                self.ci = ci;
                Ok(Outgoing { message: guistring.to_owned(), recipients: self.bc.broadcast() })
            },
            Err(e) => Err(e),
        }
    }

    /// `after` and `got` are what a text frame from `peer` makes of this
    /// server: where the frame holds an update, the update is applied,
    /// and where the map holds its control the frame goes to every peer
    /// but `peer`; a frame that holds no update changes nothing.
    pub open spec fn received(
        self,
        after: ControlServer,
        peer: Seq<char>,
        text: Seq<char>,
        got: Received,
    ) -> bool {
        &&& after.ci.cnm == self.ci.cnm
        &&& after.ci.guijson == self.ci.guijson
        &&& after.bc == self.bc
        &&& update_view(got.decoded) == decoded_frame(parsed_json(text))
        &&& match decoded_frame(parsed_json(text)) {
            Some(m) => {
                &&& after.ci.cm@ == applied(self.ci.cm@, m)
                &&& peers_view(got.recipients@) == if position(self.ci.cm@, m.control_id(), 0)
                    is Some {
                    without(self.bc@, peer)
                } else {
                    Seq::<Seq<char>>::empty()
                }
            },
            None => after.ci.cm@ == self.ci.cm@ && peers_view(got.recipients@) == Seq::<
                Seq<char>,
            >::empty(),
        }
    }

    /// Takes a text frame from `peer`. The update it holds, if any, is
    /// handed back for the application's hook, with the peers that the
    /// frame is to be passed on to as it came.
    pub fn receive_text(&mut self, peer: &str, text: &str) -> (r: Received)
        ensures
            old(self).received(*final(self), peer@, text@, r),
    {
        match decode_update_text(text) {
            Some(msg) => {
                let found = self.ci.cm.apply(&msg);
                let recipients = if found {
                    self.bc.broadcast_others(peer)
                } else {
                    Vec::new()
                };
                proof {
                    if !found {
                        assert(peers_view(recipients@) =~= Seq::<Seq<char>>::empty());
                    }
                }
                Received { decoded: Some(msg), recipients }
            },
            None => {
                let recipients: Vec<String> = Vec::new();
                proof {
                    assert(peers_view(recipients@) =~= Seq::<Seq<char>>::empty());
                }
                Received { decoded: None, recipients }
            },
        }
    }

    /// The document that brings a new client up to date: the definition
    /// with the state of every control as its member `state`. `None` where
    /// the definition text is no JSON or the document cannot be written.
    pub fn welcome(&self) -> (r: Option<String>)
        ensures
            text_view(r) == welcome_text(self.ci.guijson@, self.ci.cm@),
    {
        let doc = match parse_json(self.ci.guijson.as_str()) {
            Some(d) => d,
            None => { return None; },
        };
        let updates = cm_to_update_array(&self.ci.cm);
        let merged = merge_state(doc, &updates);
        render_json(&merged)
    }

    /// Opens a connection whose first document has been sent: registers
    /// the peer, so that it hears of what follows.
    pub fn open(&mut self, peer: &str) -> (r: ConnState)
        ensures
            r == ConnState::Open,
            final(self).ci == old(self).ci,
            final(self).bc@ == old(self).bc@.push(peer@),
    {
        self.bc.register(peer);
        ConnState::Open
    }

    /// Ends a connection, after a close or a failure of its transport:
    /// the peer is no longer registered.
    pub fn close(&mut self, peer: &str) -> (r: ConnState)
        ensures
            r == ConnState::Closed,
            final(self).ci == old(self).ci,
            final(self).bc@ == without(old(self).bc@, peer@),
    {
        self.bc.deregister(peer);
        ConnState::Closed
    }

    /// Decides what a frame calls for. On an open connection a close frame
    /// is acknowledged and the peer deregistered; a ping is answered with
    /// its own payload; a text frame is taken as an update; any other
    /// frame is passed over. A connection that is not open takes no frame.
    pub fn on_frame(&mut self, state: ConnState, peer: &str, frame: Frame) -> (r: Step)
        ensures
            state != ConnState::Open ==> r.action is Ignore && r.state == state && *final(self)
                == *old(self),
            state == ConnState::Open ==> match frame {
                Frame::Close => {
                    &&& r.action is Close
                    &&& r.state == ConnState::Closing
                    &&& final(self).ci == old(self).ci
                    &&& final(self).bc@ == without(old(self).bc@, peer@)
                },
                Frame::Ping(payload) => {
                    &&& r.action == Action::Pong(payload)
                    &&& r.state == ConnState::Open
                    &&& *final(self) == *old(self)
                },
                Frame::Text(text) => {
                    &&& r.action matches Action::Forward(got)
                    &&& old(self).received(*final(self), peer@, text@, got)
                    &&& r.state == ConnState::Open
                },
                Frame::Other => {
                    &&& r.action is Ignore
                    &&& r.state == ConnState::Open
                    &&& *final(self) == *old(self)
                },
            },
    {
        match state {
            ConnState::Open => {},
            _ => { return Step { action: Action::Ignore, state }; },
        }
        match frame {
            Frame::Close => {
                self.bc.deregister(peer);
                Step { action: Action::Close, state: ConnState::Closing }
            },
            Frame::Ping(payload) => Step { action: Action::Pong(payload), state: ConnState::Open },
            Frame::Text(text) => {
                let got = self.receive_text(peer, text.as_str());
                Step { action: Action::Forward(got), state: ConnState::Open }
            },
            Frame::Other => Step { action: Action::Ignore, state: ConnState::Open },
        }
    }
}

/// A surface is built from at most one definition text: whatever order
/// reloads come in, what the server holds afterwards is the map, the names
/// and the text of one of them, never parts of two.
pub proof fn lemma_built_from_one_definition(ci: ControlInfo, first: Seq<char>, second: Seq<char>)
    requires
        ci.built_from(first),
        ci.built_from(second),
    ensures
        first == second,
{
}

/// A surface as it was built from a definition text agrees with itself.
pub proof fn lemma_built_agrees(ci: ControlInfo, text: Seq<char>)
    requires
        ci.built_from(text),
    ensures
        ci.agrees(),
{
    let j = parsed_json(text)->0;
    let t = choose|t: ControlTree|
        defines(j, t) && ci.cm@ == flatten(t.root_control, Seq::empty());
    assert(defines(j, t) && outline(ci.cm@) == outline(flatten(t.root_control, Seq::empty())));
}

/// An update keeps the surface in agreement: ids, names and kinds stay, so
/// the map still fits the definition text and the names still fit the map.
pub proof fn lemma_update_keeps_agreement(
    before: ControlServer,
    after: ControlServer,
    m: UpdateMsgView,
    out: Option<Outgoing>,
)
    requires
        before.ci.agrees(),
        before.updated_by(after, m, out),
    ensures
        after.ci.agrees(),
{
    lemma_applied_keeps_outline(before.ci.cm@, m);
    let j = parsed_json(before.ci.guijson@)->0;
    let t = choose|t: ControlTree|
        defines(j, t) && outline(before.ci.cm@) == outline(
            flatten(t.root_control, Seq::empty()),
        );
    assert(defines(j, t) && outline(after.ci.cm@) == outline(
        flatten(t.root_control, Seq::empty()),
    ));
}

/// A text frame keeps the surface in agreement, whatever it holds.
pub proof fn lemma_frame_keeps_agreement(
    before: ControlServer,
    after: ControlServer,
    peer: Seq<char>,
    text: Seq<char>,
    got: Received,
)
    requires
        before.ci.agrees(),
        before.received(after, peer, text, got),
    ensures
        after.ci.agrees(),
{
    let j = parsed_json(before.ci.guijson@)->0;
    let t = choose|t: ControlTree|
        defines(j, t) && outline(before.ci.cm@) == outline(
            flatten(t.root_control, Seq::empty()),
        );
    match decoded_frame(parsed_json(text)) {
        Some(m) => {
            lemma_applied_keeps_outline(before.ci.cm@, m);
        },
        None => {},
    }
    assert(defines(j, t) && outline(after.ci.cm@) == outline(
        flatten(t.root_control, Seq::empty()),
    ));
}

} // verus!
