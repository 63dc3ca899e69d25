//! The update protocol: one message describes a change to exactly one control.

use vstd::prelude::*;

verus! {

/// Whether a button is being pressed.
#[derive(Clone, Copy, Debug, PartialEq, Eq, Structural)]
pub enum ButtonState {
    Active,
    Inactive,
}

/// Whether a slider is being dragged.
#[derive(Clone, Copy, Debug, PartialEq, Eq, Structural)]
pub enum SliderState {
    Active,
    Inactive,
}

/// A number as it travels on the wire: an integer, or the decimal text of a
/// real number (`0.7`, `2.5e-1`). A slider's location is kept in this form,
/// so that what a client sent is what the other clients receive. A text
/// that is no JSON number is written to the wire as `null`.
#[derive(Debug, PartialEq, Eq)]
pub enum Number {
    Int(i64),
    Real(String),
}

/// Mathematical value of a [`Number`].
pub enum NumberView {
    Int(i64),
    Real(Seq<char>),
}

impl View for Number {
    type V = NumberView;

    open spec fn view(&self) -> NumberView {
        match self {
            Number::Int(i) => NumberView::Int(*i),
            Number::Real(s) => NumberView::Real(s@),
        }
    }
}

impl Clone for Number {
    fn clone(&self) -> (r: Number)
        ensures
            r@ == self@,
    {
        match self {
            Number::Int(i) => Number::Int(*i),
            Number::Real(s) => Number::Real(s.clone()),
        }
    }
}

/// A change to one control. Absent optional fields mean "leave unchanged".
#[derive(Debug, PartialEq, Eq)]
pub enum UpdateMsg {
    Label { control_id: Vec<i32>, label: String },
    Button { control_id: Vec<i32>, state: Option<ButtonState>, label: Option<String> },
    Slider {
        control_id: Vec<i32>,
        state: Option<SliderState>,
        location: Option<Number>,
        label: Option<String>,
    },
}

/// Mathematical value of an [`UpdateMsg`].
pub enum UpdateMsgView {
    Label { control_id: Seq<i32>, label: Seq<char> },
    Button { control_id: Seq<i32>, state: Option<ButtonState>, label: Option<Seq<char>> },
    Slider {
        control_id: Seq<i32>,
        state: Option<SliderState>,
        location: Option<NumberView>,
        label: Option<Seq<char>>,
    },
}

impl UpdateMsgView {
    /// The id of the control that the message addresses.
    pub open spec fn control_id(self) -> Seq<i32> {
        match self {
            UpdateMsgView::Label { control_id, .. } => control_id,
            UpdateMsgView::Button { control_id, .. } => control_id,
            UpdateMsgView::Slider { control_id, .. } => control_id,
        }
    }
}

/// View of an optional string.
pub open spec fn text_view(s: Option<String>) -> Option<Seq<char>> {
    match s {
        Some(t) => Some(t@),
        None => None,
    }
}

/// View of an optional number.
pub open spec fn number_view(n: Option<Number>) -> Option<NumberView> {
    match n {
        Some(x) => Some(x@),
        None => None,
    }
}

impl View for UpdateMsg {
    type V = UpdateMsgView;

    open spec fn view(&self) -> UpdateMsgView {
        match self {
            UpdateMsg::Label { control_id, label } => UpdateMsgView::Label {
                control_id: control_id@,
                label: label@,
            },
            UpdateMsg::Button { control_id, state, label } => UpdateMsgView::Button {
                control_id: control_id@,
                state: *state,
                label: text_view(*label),
            },
            UpdateMsg::Slider { control_id, state, location, label } => UpdateMsgView::Slider {
                control_id: control_id@,
                state: *state,
                location: number_view(*location),
                label: text_view(*label),
            },
        }
    }
}

/// Copies a control id.
pub fn clone_id(id: &Vec<i32>) -> (r: Vec<i32>)
    ensures
        r@ == id@,
{
    let mut out: Vec<i32> = Vec::new();
    let mut i: usize = 0;
    while i < id.len()
        invariant
            i <= id.len(),
            out@ == id@.take(i as int),
        decreases id.len() - i,
    {
        out.push(id[i]);
        proof {
            assert(id@.take(i + 1) =~= id@.take(i as int).push(id@[i as int]));
        }
        i = i + 1;
    }
    proof {
        assert(id@.take(id.len() as int) =~= id@);
    }
    out
}

/// Tells whether two control ids are the same path.
pub fn same_id(a: &Vec<i32>, b: &Vec<i32>) -> (r: bool)
    ensures
        r == (a@ == b@),
{
    if a.len() != b.len() {
        return false;
    }
    let mut i: usize = 0;
    while i < a.len()
        invariant
            i <= a.len(),
            a.len() == b.len(),
            forall|j: int| 0 <= j < i ==> a@[j] == b@[j],
        decreases a.len() - i,
    {
        if a[i] != b[i] {
            return false;
        }
        i = i + 1;
    }
    proof {
        assert(a@ =~= b@);
    }
    true
}

/// Copies an optional string.
pub fn clone_text(s: &Option<String>) -> (r: Option<String>)
    ensures
        text_view(r) == text_view(*s),
{
    match s {
        Some(t) => Some(t.clone()),
        None => None,
    }
}

/// Copies an optional number.
pub fn clone_number(n: &Option<Number>) -> (r: Option<Number>)
    ensures
        number_view(r) == number_view(*n),
{
    match n {
        Some(x) => Some(x.clone()),
        None => None,
    }
}

impl Clone for UpdateMsg {
    fn clone(&self) -> (r: UpdateMsg)
        ensures
            r@ == self@,
    {
        match self {
            UpdateMsg::Label { control_id, label } => UpdateMsg::Label {
                control_id: clone_id(control_id),
                label: label.clone(),
            },
            UpdateMsg::Button { control_id, state, label } => UpdateMsg::Button {
                control_id: clone_id(control_id),
                state: *state,
                label: clone_text(label),
            },
            UpdateMsg::Slider { control_id, state, location, label } => UpdateMsg::Slider {
                control_id: clone_id(control_id),
                state: *state,
                location: clone_number(location),
                label: clone_text(label),
            },
        }
    }
}

impl UpdateMsg {
    /// The id of the control that the message addresses.
    pub fn control_id(&self) -> (r: &Vec<i32>)
        ensures
            r@ == self@.control_id(),
    {
        match self {
            UpdateMsg::Label { control_id, .. } => control_id,
            UpdateMsg::Button { control_id, .. } => control_id,
            UpdateMsg::Slider { control_id, .. } => control_id,
        }
    }
}

} // verus!
