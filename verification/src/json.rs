//! JSON values, and the wire form of update messages.

use vstd::prelude::*;
use serde_json::Value;
use crate::control_updates::{
    number_view, text_view, ButtonState, Number, NumberView, SliderState, UpdateMsg,
    UpdateMsgView,
};
use crate::controls::{fits, opt_id_view, update_view, updates_view, Control};

verus! {

/// A JSON document. An object keeps its members in a list; the first member
/// with a key is the one that counts.
#[derive(Debug, PartialEq, Eq)]
pub enum Json {
    Null,
    Bool(bool),
    Number(Number),
    Str(String),
    Array(Vec<Json>),
    Object(Vec<(String, Json)>),
}

/// Mathematical value of a [`Json`].
pub enum JsonView {
    Null,
    Bool(bool),
    Number(NumberView),
    Str(Seq<char>),
    Array(Seq<JsonView>),
    Object(Seq<(Seq<char>, JsonView)>),
}

/// The members of an object, by their views.
pub type Members = Seq<(Seq<char>, JsonView)>;

/// Mathematical value of a document.
pub open spec fn json_view(j: Json) -> JsonView
    decreases j, 0nat,
{
    match j {
        Json::Null => JsonView::Null,
        Json::Bool(b) => JsonView::Bool(b),
        Json::Number(n) => JsonView::Number(n@),
        Json::Str(s) => JsonView::Str(s@),
        Json::Array(items) => JsonView::Array(items_first(items, items.len() as nat)),
        Json::Object(members) => JsonView::Object(members_first(members, members.len() as nat)),
    }
}

/// Values of the first `n` of `items`.
pub open spec fn items_first(items: Vec<Json>, n: nat) -> Seq<JsonView>
    decreases items, n,
{
    if n == 0 || n > items.len() {
        Seq::empty()
    } else {
        items_first(items, (n - 1) as nat).push(json_view(items[n - 1]))
    }
}

/// Values of the first `n` of `members`.
pub open spec fn members_first(members: Vec<(String, Json)>, n: nat) -> Members
    decreases members, n,
{
    if n == 0 || n > members.len() {
        Seq::empty()
    } else {
        members_first(members, (n - 1) as nat).push(
            (members[n - 1].0@, json_view(members[n - 1].1)),
        )
    }
}

impl View for Json {
    type V = JsonView;

    open spec fn view(&self) -> JsonView {
        json_view(*self)
    }
}

/// View of a list of documents.
pub open spec fn items_view(s: Seq<Json>) -> Seq<JsonView> {
    Seq::new(s.len(), |i: int| s[i]@)
}

/// View of a list of members.
pub open spec fn members_view(s: Seq<(String, Json)>) -> Members {
    Seq::new(s.len(), |i: int| (s[i].0@, s[i].1@))
}

/// The values of the first `n` items are the views of those items.
proof fn lemma_items_first(items: Vec<Json>, n: nat)
    requires
        n <= items.len(),
    ensures
        items_first(items, n) == items_view(items@.take(n as int)),
    decreases n,
{
    if n > 0 {
        lemma_items_first(items, (n - 1) as nat);
        assert(items_first(items, n) =~= items_view(items@.take(n as int)));
    } else {
        assert(items_first(items, n) =~= items_view(items@.take(n as int)));
    }
}

/// The values of the first `n` members are the views of those members.
proof fn lemma_members_first(members: Vec<(String, Json)>, n: nat)
    requires
        n <= members.len(),
    ensures
        members_first(members, n) == members_view(members@.take(n as int)),
    decreases n,
{
    if n > 0 {
        lemma_members_first(members, (n - 1) as nat);
        assert(members_first(members, n) =~= members_view(members@.take(n as int)));
    } else {
        assert(members_first(members, n) =~= members_view(members@.take(n as int)));
    }
}

/// An array's view is the views of its items.
pub proof fn lemma_array_view(items: Vec<Json>)
    ensures
        Json::Array(items)@ == JsonView::Array(items_view(items@)),
{
    lemma_items_first(items, items.len() as nat);
    assert(items@.take(items.len() as int) =~= items@);
}

/// An object's view is the views of its members.
pub proof fn lemma_object_view(members: Vec<(String, Json)>)
    ensures
        Json::Object(members)@ == JsonView::Object(members_view(members@)),
{
    lemma_members_first(members, members.len() as nat);
    assert(members@.take(members.len() as int) =~= members@);
}

/// The value of the first member with the given key.
pub open spec fn member(ms: Members, key: Seq<char>) -> Option<JsonView>
    decreases ms.len(),
{
    if ms.len() == 0 {
        None
    } else if ms[0].0 == key {
        Some(ms[0].1)
    } else {
        member(ms.drop_first(), key)
    }
}

/// Looking a key up in two lists joined is looking it up in the first and,
/// where that has none, in the second.
pub proof fn lemma_member_concat(a: Members, b: Members, key: Seq<char>)
    ensures
        member(a + b, key) == if member(a, key) is Some {
            member(a, key)
        } else {
            member(b, key)
        },
    decreases a.len(),
{
    if a.len() == 0 {
        assert(a + b =~= b);
    } else {
        assert((a + b).drop_first() =~= a.drop_first() + b);
        if a[0].0 != key {
            lemma_member_concat(a.drop_first(), b, key);
        }
    }
}

/// View of a document that may be absent.
pub open spec fn opt_view(j: Option<&Json>) -> Option<JsonView> {
    match j {
        Some(x) => Some(x@),
        None => None,
    }
}

/// Position of the first member at or after `from` with the given key.
pub open spec fn key_position(ms: Members, key: Seq<char>, from: int) -> Option<int>
    decreases ms.len() - from,
{
    if from < 0 || from >= ms.len() {
        None
    } else if ms[from].0 == key {
        Some(from)
    } else {
        key_position(ms, key, from + 1)
    }
}

/// Position in `ms` of the first member with the given key.
pub fn find_member(ms: &Vec<(String, Json)>, key: &str) -> (r: Option<usize>)
    ensures
        match r {
            Some(i) => i < ms.len() && member(members_view(ms@), key@) == Some(ms@[i as int].1@)
                && key_position(members_view(ms@), key@, 0) == Some(i as int),
            None => member(members_view(ms@), key@) is None && key_position(
                members_view(ms@),
                key@,
                0,
            ) is None,
        },
{
    let wanted: String = key.to_owned();
    let ghost all = members_view(ms@);
    let mut i: usize = 0;
    proof {
        assert(all.skip(0) =~= all);
    }
    while i < ms.len()
        invariant
            i <= ms.len(),
            all == members_view(ms@),
            wanted@ == key@,
            member(all, key@) == member(all.skip(i as int), key@),
            key_position(all, key@, 0) == key_position(all, key@, i as int),
        decreases ms.len() - i,
    {
        proof {
            assert(all.skip(i as int).drop_first() =~= all.skip(i + 1));
        }
        if ms[i].0 == wanted {
            return Some(i);
        }
        i = i + 1;
    }
    None
}

/// The value of the first member of `ms` with the given key.
pub fn get_member<'a>(ms: &'a Vec<(String, Json)>, key: &str) -> (r: Option<&'a Json>)
    ensures
        opt_view(r) == member(members_view(ms@), key@),
{
    match find_member(ms, key) {
        Some(i) => Some(&ms[i].1),
        None => None,
    }
}

/// The members that an optional field contributes: one, or none.
pub open spec fn optional_member(key: Seq<char>, v: Option<JsonView>) -> Members {
    match v {
        Some(x) => seq![(key, x)],
        None => Seq::empty(),
    }
}

/// Wire form of a control id: an array of integers.
pub open spec fn id_json(id: Seq<i32>) -> JsonView {
    JsonView::Array(Seq::new(id.len(), |i: int| JsonView::Number(NumberView::Int(id[i] as i64))))
}

/// Wire form of a button's state.
pub open spec fn button_state_json(s: Option<ButtonState>) -> Option<JsonView> {
    match s {
        Some(ButtonState::Active) => Some(JsonView::Str("Active"@)),
        Some(ButtonState::Inactive) => Some(JsonView::Str("Inactive"@)),
        None => None,
    }
}

/// Wire form of a slider's state.
pub open spec fn slider_state_json(s: Option<SliderState>) -> Option<JsonView> {
    match s {
        Some(SliderState::Active) => Some(JsonView::Str("Active"@)),
        Some(SliderState::Inactive) => Some(JsonView::Str("Inactive"@)),
        None => None,
    }
}

/// Wire form of an optional text.
pub open spec fn text_json(t: Option<Seq<char>>) -> Option<JsonView> {
    match t {
        Some(x) => Some(JsonView::Str(x)),
        None => None,
    }
}

/// Wire form of an optional number.
pub open spec fn number_json(n: Option<NumberView>) -> Option<JsonView> {
    match n {
        Some(x) => Some(JsonView::Number(x)),
        None => None,
    }
}

/// Wire form of an update message: an object tagged by `type`, with the
/// control id and one member for each field that is present.
pub open spec fn encoded(m: UpdateMsgView) -> JsonView {
    match m {
        UpdateMsgView::Label { control_id, label } => JsonView::Object(
            seq![
                ("type"@, JsonView::Str("label"@)),
                ("control_id"@, id_json(control_id)),
                ("label"@, JsonView::Str(label)),
            ],
        ),
        UpdateMsgView::Button { control_id, state, label } => JsonView::Object(
            seq![("type"@, JsonView::Str("button"@)), ("control_id"@, id_json(control_id))]
                + optional_member("state"@, button_state_json(state)) + optional_member(
                "label"@,
                text_json(label),
            ),
        ),
        UpdateMsgView::Slider { control_id, state, location, label } => JsonView::Object(
            seq![("type"@, JsonView::Str("slider"@)), ("control_id"@, id_json(control_id))]
                + optional_member("state"@, slider_state_json(state)) + optional_member(
                "location"@,
                number_json(location),
            ) + optional_member("label"@, text_json(label)),
        ),
    }
}

/// Whether a document is an integer that fits a control id.
pub open spec fn is_index(j: JsonView) -> bool {
    j matches JsonView::Number(NumberView::Int(i)) && i32::MIN <= i <= i32::MAX
}

/// The control id that a member holds; `None` where it is absent or is no
/// array of such integers.
pub open spec fn decoded_id(j: Option<JsonView>) -> Option<Seq<i32>> {
    match j {
        Some(JsonView::Array(items)) => {
            if forall|i: int| 0 <= i < items.len() ==> is_index(#[trigger] items[i]) {
                Some(Seq::new(items.len(), |i: int| items[i]->Number_0->Int_0 as i32))
            } else {
                None
            }
        },
        _ => None,
    }
}

/// An optional text member: absent, a string, or (outer `None`) malformed.
pub open spec fn decoded_text(j: Option<JsonView>) -> Option<Option<Seq<char>>> {
    match j {
        None => Some(None),
        Some(JsonView::Str(s)) => Some(Some(s)),
        _ => None,
    }
}

/// An optional number member: absent, a number, or (outer `None`) malformed.
pub open spec fn decoded_number(j: Option<JsonView>) -> Option<Option<NumberView>> {
    match j {
        None => Some(None),
        Some(JsonView::Number(n)) => Some(Some(n)),
        _ => None,
    }
}

/// An optional state member: absent, one of the two words as `true` for
/// `Active`, or (outer `None`) malformed.
pub open spec fn decoded_state(j: Option<JsonView>) -> Option<Option<bool>> {
    match j {
        None => Some(None),
        Some(JsonView::Str(s)) => if s == "Active"@ {
            Some(Some(true))
        } else if s == "Inactive"@ {
            Some(Some(false))
        } else {
            None
        },
        _ => None,
    }
}

/// The button state that a decoded state member stands for.
pub open spec fn as_button_state(s: Option<bool>) -> Option<ButtonState> {
    match s {
        Some(true) => Some(ButtonState::Active),
        Some(false) => Some(ButtonState::Inactive),
        None => None,
    }
}

/// The slider state that a decoded state member stands for.
pub open spec fn as_slider_state(s: Option<bool>) -> Option<SliderState> {
    match s {
        Some(true) => Some(SliderState::Active),
        Some(false) => Some(SliderState::Inactive),
        None => None,
    }
}

/// The message that a set of members describes, given its kind and id.
pub open spec fn decoded_kind(ms: Members, kind: Seq<char>, id: Seq<i32>) -> Option<
    UpdateMsgView,
> {
    if kind == "label"@ {
        match member(ms, "label"@) {
            Some(JsonView::Str(t)) => Some(UpdateMsgView::Label { control_id: id, label: t }),
            _ => None,
        }
    } else if kind == "button"@ {
        match (decoded_state(member(ms, "state"@)), decoded_text(member(ms, "label"@))) {
            (Some(s), Some(l)) => Some(
                UpdateMsgView::Button { control_id: id, state: as_button_state(s), label: l },
            ),
            _ => None,
        }
    } else if kind == "slider"@ {
        match (
            decoded_state(member(ms, "state"@)),
            decoded_number(member(ms, "location"@)),
            decoded_text(member(ms, "label"@)),
        ) {
            (Some(s), Some(n), Some(l)) => Some(
                UpdateMsgView::Slider {
                    control_id: id,
                    state: as_slider_state(s),
                    location: n,
                    label: l,
                },
            ),
            _ => None,
        }
    } else {
        None
    }
}

/// The message that a document describes. `None` where it is no object,
/// has no known `type` or no well-formed `control_id`, lacks a field that
/// its kind requires, or holds an optional field of the wrong shape.
pub open spec fn decoded(j: JsonView) -> Option<UpdateMsgView> {
    match j {
        JsonView::Object(ms) => match (member(ms, "type"@), decoded_id(member(ms, "control_id"@))) {
            (Some(JsonView::Str(kind)), Some(id)) => decoded_kind(ms, kind, id),
            _ => None,
        },
        _ => None,
    }
}

/// The words of the wire format differ from one another.
pub proof fn lemma_words_differ()
    ensures
        "type"@ != "control_id"@,
        "type"@ != "state"@,
        "type"@ != "location"@,
        "type"@ != "label"@,
        "control_id"@ != "state"@,
        "control_id"@ != "location"@,
        "control_id"@ != "label"@,
        "state"@ != "location"@,
        "state"@ != "label"@,
        "location"@ != "label"@,
        "label"@ != "button"@,
        "label"@ != "slider"@,
        "button"@ != "slider"@,
        "Active"@ != "Inactive"@,
{
    reveal_strlit("type");
    reveal_strlit("control_id");
    reveal_strlit("state");
    reveal_strlit("location");
    reveal_strlit("label");
    reveal_strlit("button");
    reveal_strlit("slider");
    reveal_strlit("Active");
    reveal_strlit("Inactive");
    assert("type"@.len() == 4);
    assert("control_id"@.len() == 10);
    assert("state"@.len() == 5);
    assert("location"@.len() == 8);
    assert("label"@.len() == 5);
    assert("button"@.len() == 6);
    assert("slider"@.len() == 6);
    assert("Active"@.len() == 6);
    assert("Inactive"@.len() == 8);
    assert("state"@[0] == 's');
    assert("label"@[0] == 'l');
    assert("button"@[0] == 'b');
    assert("slider"@[0] == 's');
}

/// Looking a key up in what an optional field contributes.
pub proof fn lemma_member_optional(k: Seq<char>, v: Option<JsonView>, key: Seq<char>)
    ensures
        member(optional_member(k, v), key) == if k == key {
            v
        } else {
            None
        },
{
    reveal_with_fuel(member, 3);
    if v is Some {
        assert(optional_member(k, v).drop_first() =~= Seq::empty());
    } else {
        assert(optional_member(k, v).len() == 0);
    }
}

/// Looking a key up in the two members that every message starts with.
pub proof fn lemma_member_head(kind: JsonView, id: JsonView, key: Seq<char>)
    ensures
        member(seq![("type"@, kind), ("control_id"@, id)], key) == if key == "type"@ {
            Some(kind)
        } else if key == "control_id"@ {
            Some(id)
        } else {
            None
        },
{
    let ms = seq![("type"@, kind), ("control_id"@, id)];
    assert(ms =~= seq![("type"@, kind)] + seq![("control_id"@, id)]);
    lemma_member_concat(seq![("type"@, kind)], seq![("control_id"@, id)], key);
    lemma_member_optional("type"@, Some(kind), key);
    lemma_member_optional("control_id"@, Some(id), key);
}

/// A control id comes back from its wire form.
pub proof fn lemma_id_round_trip(id: Seq<i32>)
    ensures
        decoded_id(Some(id_json(id))) == Some(id),
{
    let items = id_json(id)->Array_0;
    assert forall|i: int| 0 <= i < items.len() implies is_index(#[trigger] items[i]) by {}
    assert(decoded_id(Some(id_json(id)))->0 =~= id);
}

/// Decoding the wire form of a message gives the message back, whatever
/// its kind and whichever of its optional fields are present.
pub proof fn lemma_round_trip(m: UpdateMsgView)
    ensures
        decoded(encoded(m)) == Some(m),
{
    lemma_words_differ();
    let ms = encoded(m)->Object_0;
    lemma_id_round_trip(m.control_id());
    match m {
        UpdateMsgView::Label { control_id, label } => {
            let kind = JsonView::Str("label"@);
            let head = seq![("type"@, kind), ("control_id"@, id_json(control_id))];
            let tail = optional_member("label"@, Some(JsonView::Str(label)));
            assert(ms =~= head + tail);
            assert forall|key: Seq<char>|
                member(ms, key) == if member(head, key) is Some {
                    member(head, key)
                } else {
                    member(tail, key)
                } by {
                lemma_member_concat(head, tail, key);
            }
            lemma_member_head(kind, id_json(control_id), "type"@);
            lemma_member_head(kind, id_json(control_id), "control_id"@);
            lemma_member_head(kind, id_json(control_id), "label"@);
            lemma_member_optional("label"@, Some(JsonView::Str(label)), "label"@);
        },
        UpdateMsgView::Button { control_id, state, label } => {
            let kind = JsonView::Str("button"@);
            let idj = id_json(control_id);
            let head = seq![("type"@, kind), ("control_id"@, idj)];
            let a = optional_member("state"@, button_state_json(state));
            let b = optional_member("label"@, text_json(label));
            assert forall|key: Seq<char>|
                member(ms, key) == if member(head, key) is Some {
                    member(head, key)
                } else if member(a, key) is Some {
                    member(a, key)
                } else {
                    member(b, key)
                } by {
                lemma_member_concat(head + a, b, key);
                lemma_member_concat(head, a, key);
            }
            lemma_member_head(kind, idj, "type"@);
            lemma_member_head(kind, idj, "control_id"@);
            lemma_member_head(kind, idj, "state"@);
            lemma_member_head(kind, idj, "label"@);
            lemma_member_optional("state"@, button_state_json(state), "type"@);
            lemma_member_optional("state"@, button_state_json(state), "control_id"@);
            lemma_member_optional("state"@, button_state_json(state), "state"@);
            lemma_member_optional("state"@, button_state_json(state), "label"@);
            lemma_member_optional("label"@, text_json(label), "label"@);
            lemma_member_optional("label"@, text_json(label), "state"@);
        },
        UpdateMsgView::Slider { control_id, state, location, label } => {
            let kind = JsonView::Str("slider"@);
            let idj = id_json(control_id);
            let head = seq![("type"@, kind), ("control_id"@, idj)];
            let a = optional_member("state"@, slider_state_json(state));
            let b = optional_member("location"@, number_json(location));
            let c = optional_member("label"@, text_json(label));
            assert forall|key: Seq<char>|
                member(ms, key) == if member(head, key) is Some {
                    member(head, key)
                } else if member(a, key) is Some {
                    member(a, key)
                } else if member(b, key) is Some {
                    member(b, key)
                } else {
                    member(c, key)
                } by {
                lemma_member_concat(head + a + b, c, key);
                lemma_member_concat(head + a, b, key);
                lemma_member_concat(head, a, key);
            }
            lemma_member_head(kind, idj, "type"@);
            lemma_member_head(kind, idj, "control_id"@);
            lemma_member_head(kind, idj, "state"@);
            lemma_member_head(kind, idj, "location"@);
            lemma_member_head(kind, idj, "label"@);
            assert forall|key: Seq<char>|
                member(a, key) == (if key == "state"@ {
                    slider_state_json(state)
                } else {
                    None
                }) && member(b, key) == (if key == "location"@ {
                    number_json(location)
                } else {
                    None
                }) && member(c, key) == (if key == "label"@ {
                    text_json(label)
                } else {
                    None
                }) by {
                lemma_member_optional("state"@, slider_state_json(state), key);
                lemma_member_optional("location"@, number_json(location), key);
                lemma_member_optional("label"@, text_json(label), key);
            }
        },
    }
}

/// Tells whether `s` is the given word.
pub fn text_is(s: &String, word: &str) -> (r: bool)
    ensures
        r == (s@ == word@),
{
    let w: String = word.to_owned();
    *s == w
}

/// Wire form of a control id.
pub fn encode_id(id: &Vec<i32>) -> (r: Json)
    ensures
        r@ == id_json(id@),
{
    let mut items: Vec<Json> = Vec::new();
    let mut i: usize = 0;
    while i < id.len()
        invariant
            i <= id.len(),
            items@.len() == i,
            forall|k: int| 0 <= k < i ==> (#[trigger] items@[k])@ == JsonView::Number(NumberView::Int(id@[k] as i64)),
        decreases id.len() - i,
    {
        items.push(Json::Number(Number::Int(id[i] as i64)));
        i = i + 1;
    }
    proof {
        lemma_array_view(items);
        assert(items_view(items@) =~= id_json(id@)->Array_0);
    }
    Json::Array(items)
}

/// Reads a control id from the member that should hold it.
pub fn decode_id(j: Option<&Json>) -> (r: Option<Vec<i32>>)
    ensures
        opt_id_view(r) == decoded_id(opt_view(j)),
{
    match j {
        Some(Json::Array(items)) => {
            proof {
                lemma_array_view(*items);
            }
            let mut out: Vec<i32> = Vec::new();
            let mut i: usize = 0;
            while i < items.len()
                invariant
                    i <= items.len(),
                    out@.len() == i,
                    opt_view(j) == Some(JsonView::Array(items_view(items@))),
                    forall|k: int| 0 <= k < i ==> is_index(#[trigger] items_view(items@)[k]),
                    forall|k: int| 0 <= k < i ==> out@[k] == (items_view(items@)[k]->Number_0->Int_0 as i32),
                decreases items.len() - i,
            {
                match &items[i] {
                    Json::Number(Number::Int(v)) => {
                        if *v < -2147483648 || *v > 2147483647 {
                            assert(!is_index(items_view(items@)[i as int]));
                            return None;
                        }
                        out.push(*v as i32);
                    },
                    _ => {
                        assert(!is_index(items_view(items@)[i as int]));
                        return None;
                    },
                }
                i = i + 1;
            }
            proof {
                assert(out@ =~= decoded_id(opt_view(j))->0);
            }
            Some(out)
        },
        _ => None,
    }
}

/// Reads an optional text member.
pub fn decode_text(j: Option<&Json>) -> (r: Option<Option<String>>)
    ensures
        match r {
            Some(t) => decoded_text(opt_view(j)) == Some(text_view(t)),
            None => decoded_text(opt_view(j)) is None,
        },
{
    match j {
        None => Some(None),
        Some(Json::Str(s)) => Some(Some(s.clone())),
        _ => None,
    }
}

/// Reads an optional number member.
pub fn decode_number(j: Option<&Json>) -> (r: Option<Option<Number>>)
    ensures
        match r {
            Some(n) => decoded_number(opt_view(j)) == Some(number_view(n)),
            None => decoded_number(opt_view(j)) is None,
        },
{
    match j {
        None => Some(None),
        Some(Json::Number(n)) => Some(Some(n.clone())),
        _ => None,
    }
}

/// Reads an optional state member; `true` stands for `Active`.
pub fn decode_state(j: Option<&Json>) -> (r: Option<Option<bool>>)
    ensures
        r == decoded_state(opt_view(j)),
{
    match j {
        None => Some(None),
        Some(Json::Str(s)) => {
            if text_is(s, "Active") {
                Some(Some(true))
            } else if text_is(s, "Inactive") {
                Some(Some(false))
            } else {
                None
            }
        },
        _ => None,
    }
}

/// Wire form of an update message.
pub fn encode_update_message(m: &UpdateMsg) -> (r: Json)
    ensures
        r@ == encoded(m@),
{
    let mut ms: Vec<(String, Json)> = Vec::new();
    match m {
        UpdateMsg::Label { control_id, label } => {
            ms.push(("type".to_owned(), Json::Str("label".to_owned())));
            ms.push(("control_id".to_owned(), encode_id(control_id)));
            ms.push(("label".to_owned(), Json::Str(label.clone())));
        },
        UpdateMsg::Button { control_id, state, label } => {
            ms.push(("type".to_owned(), Json::Str("button".to_owned())));
            ms.push(("control_id".to_owned(), encode_id(control_id)));
            match state {
                Some(ButtonState::Active) => ms.push(
                    ("state".to_owned(), Json::Str("Active".to_owned())),
                ),
                Some(ButtonState::Inactive) => ms.push(
                    ("state".to_owned(), Json::Str("Inactive".to_owned())),
                ),
                None => {},
            }
            match label {
                Some(t) => ms.push(("label".to_owned(), Json::Str(t.clone()))),
                None => {},
            }
        },
        UpdateMsg::Slider { control_id, state, location, label } => {
            ms.push(("type".to_owned(), Json::Str("slider".to_owned())));
            ms.push(("control_id".to_owned(), encode_id(control_id)));
            match state {
                Some(SliderState::Active) => ms.push(
                    ("state".to_owned(), Json::Str("Active".to_owned())),
                ),
                Some(SliderState::Inactive) => ms.push(
                    ("state".to_owned(), Json::Str("Inactive".to_owned())),
                ),
                None => {},
            }
            match location {
                Some(n) => ms.push(("location".to_owned(), Json::Number(n.clone()))),
                None => {},
            }
            match label {
                Some(t) => ms.push(("label".to_owned(), Json::Str(t.clone()))),
                None => {},
            }
        },
    }
    proof {
        lemma_object_view(ms);
        assert(members_view(ms@) =~= encoded(m@)->Object_0);
    }
    Json::Object(ms)
}

/// Reads an update message from its wire form.
pub fn decode_update_message(j: &Json) -> (r: Option<UpdateMsg>)
    ensures
        update_view(r) == decoded(j@),
{
    match j {
        Json::Object(ms) => {
            proof {
                lemma_object_view(*ms);
            }
            let kind = match get_member(ms, "type") {
                Some(Json::Str(k)) => k,
                _ => { return None; },
            };
            let id = match decode_id(get_member(ms, "control_id")) {
                Some(id) => id,
                None => { return None; },
            };
            if text_is(kind, "label") {
                match get_member(ms, "label") {
                    Some(Json::Str(t)) => Some(
                        UpdateMsg::Label { control_id: id, label: t.clone() },
                    ),
                    _ => None,
                }
            } else if text_is(kind, "button") {
                match (decode_state(get_member(ms, "state")), decode_text(get_member(ms, "label"))) {
                    (Some(s), Some(l)) => Some(
                        UpdateMsg::Button {
                            control_id: id,
                            state: match s {
                                Some(true) => Some(ButtonState::Active),
                                Some(false) => Some(ButtonState::Inactive),
                                None => None,
                            },
                            label: l,
                        },
                    ),
                    _ => None,
                }
            } else if text_is(kind, "slider") {
                match (
                    decode_state(get_member(ms, "state")),
                    decode_number(get_member(ms, "location")),
                    decode_text(get_member(ms, "label")),
                ) {
                    (Some(s), Some(n), Some(l)) => Some(
                        UpdateMsg::Slider {
                            control_id: id,
                            state: match s {
                                Some(true) => Some(SliderState::Active),
                                Some(false) => Some(SliderState::Inactive),
                                None => None,
                            },
                            location: n,
                            label: l,
                        },
                    ),
                    _ => None,
                }
            } else {
                None
            }
        },
        _ => None,
    }
}

/// The document that a text holds, as `serde_json` reads it; `None` where
/// the text is no JSON.
pub uninterp spec fn parsed_json(text: Seq<char>) -> Option<JsonView>;

/// The text that `serde_json` writes for a document.
pub uninterp spec fn json_text(j: JsonView) -> Option<Seq<char>>;

#[verifier::external_type_specification]
#[verifier::external_body]
pub struct ExValue(serde_json::Value);

/// Turns a `serde_json::Value` into a [`Json`], node for node. An object's
/// members come in the order of `serde_json::Map`'s iterator; a number that
/// `Number::as_i64` gives is an integer, any other is kept as the text that
/// `Number`'s `Display` writes. Nothing is claimed of the result.
#[verifier::external_body]
fn from_value(v: &Value) -> Json {
    match v {
        Value::Null => Json::Null,
        Value::Bool(b) => Json::Bool(*b),
        Value::Number(n) => match n.as_i64() {
            Some(i) => Json::Number(Number::Int(i)),
            None => Json::Number(Number::Real(n.to_string())),
        },
        Value::String(s) => Json::Str(s.clone()),
        Value::Array(a) => Json::Array(a.iter().map(from_value).collect()),
        Value::Object(o) => Json::Object(o.iter().map(|(k, x)| (k.clone(), from_value(x))).collect()),
    }
}

/// Turns a [`Json`] into a `serde_json::Value`, node for node. The text of
/// a real number is read by `serde_json::from_str` as a `Number`, and is
/// `null` where it is none. Nothing is claimed of the result.
#[verifier::external_body]
fn to_value(j: &Json) -> Value {
    match j {
        Json::Null => Value::Null,
        Json::Bool(b) => Value::Bool(*b),
        Json::Number(Number::Int(i)) => Value::from(*i),
        Json::Number(Number::Real(t)) => serde_json::from_str(t).map_or(Value::Null, Value::Number),
        Json::Str(s) => Value::String(s.clone()),
        Json::Array(a) => Value::Array(a.iter().map(to_value).collect()),
        Json::Object(o) => Value::Object(o.iter().map(|m| (m.0.clone(), to_value(&m.1))).collect()),
    }
}

/// Calls `serde_json::from_str` for a `Value`. The contract claims only
/// that the outcome is a function of the text: `None` stands for the
/// parser's error.
#[verifier::external_body]
fn parse_value(text: &str) -> (r: Option<Json>)
    ensures
        json_opt_view(r) == parsed_json(text@),
{
    match serde_json::from_str::<Value>(text) {
        Ok(v) => Some(from_value(&v)),
        Err(_) => None,
    }
}

/// Calls `serde_json::to_string` on the document's `Value`. The contract
/// claims only that the outcome is a function of the document: `None`
/// stands for the serializer's error.
#[verifier::external_body]
fn render_value(j: &Json) -> (r: Option<String>)
    ensures
        text_view(r) == json_text(j@),
{
    serde_json::to_string(&to_value(j)).ok()
}

/// View of a document that may be absent.
pub open spec fn json_opt_view(j: Option<Json>) -> Option<JsonView> {
    match j {
        Some(x) => Some(x@),
        None => None,
    }
}

/// Reads a JSON text.
pub fn parse_json(text: &str) -> (r: Option<Json>)
    ensures
        json_opt_view(r) == parsed_json(text@),
{
    parse_value(text)
}

/// Writes a document as JSON text.
pub fn render_json(j: &Json) -> (r: Option<String>)
    ensures
        text_view(r) == json_text(j@),
{
    render_value(j)
}

/// The message that a text frame holds.
pub open spec fn decoded_frame(parsed: Option<JsonView>) -> Option<UpdateMsgView> {
    match parsed {
        Some(j) => decoded(j),
        None => None,
    }
}

/// Reads an update message from the text of a frame: `None` where the text
/// is no JSON or the document is no update message.
pub fn decode_update_text(text: &str) -> (r: Option<UpdateMsg>)
    ensures
        update_view(r) == decoded_frame(parsed_json(text@)),
{
    match parse_json(text) {
        Some(j) => decode_update_message(&j),
        None => None,
    }
}

/// Writes an update message as the text of a frame.
pub fn encode_update_text(m: &UpdateMsg) -> (r: Option<String>)
    ensures
        text_view(r) == json_text(encoded(m@)),
{
    let j = encode_update_message(m);
    render_json(&j)
}

/// Whether the definition `j` describes the tree under `c`: an object
/// whose `type` names the node's kind and whose `name` is its name; a group's
/// `children` describe its children, one for one and at most `i32::MAX` of
/// them; a control of another kind starts with no state.
pub open spec fn describes(j: JsonView, c: Control) -> bool
    decreases c,
{
    &&& j matches JsonView::Object(ms)
    &&& member(ms, "name"@) == Some(JsonView::Str(c.node().name()))
    &&& member(ms, "type"@) matches Some(JsonView::Str(kind))
    &&& match c {
        Control::Group { children, .. } => {
            &&& kind == "group"@
            &&& member(ms, "children"@) matches Some(JsonView::Array(items))
            &&& items.len() == children.len()
            &&& children.len() <= i32::MAX
            &&& forall|i: int|
                0 <= i < children.len() ==> describes(items[i], #[trigger] children[i])
        },
        Control::Slider { state, location, label, .. } => {
            &&& kind == "slider"@
            &&& state is None
            &&& location is None
            &&& label is None
        },
        Control::Button { state, label, .. } => {
            &&& kind == "button"@
            &&& state is None
            &&& label is None
        },
        Control::Label { text, .. } => {
            &&& kind == "label"@
            &&& text@ == Seq::<char>::empty()
        },
    }
}

/// A tree that a definition describes has groups small enough for ids.
pub proof fn lemma_described_fits(j: JsonView, c: Control)
    requires
        describes(j, c),
    ensures
        fits(c),
    decreases c,
{
    match c {
        Control::Group { children, .. } => {
            let items = member(j->Object_0, "children"@)->0->Array_0;
            assert forall|i: int| 0 <= i < children.len() implies fits(#[trigger] children[i]) by {
                lemma_described_fits(items[i], children[i]);
            }
        },
        _ => {},
    }
}

/// The four kind words differ from one another.
pub proof fn lemma_kinds_differ()
    ensures
        "group"@ != "slider"@,
        "group"@ != "button"@,
        "group"@ != "label"@,
        "slider"@ != "button"@,
        "slider"@ != "label"@,
        "button"@ != "label"@,
{
    reveal_strlit("group");
    reveal_strlit("slider");
    reveal_strlit("button");
    reveal_strlit("label");
    assert("group"@.len() == 5);
    assert("slider"@.len() == 6);
    assert("button"@.len() == 6);
    assert("label"@.len() == 5);
    assert("group"@[0] == 'g');
    assert("label"@[0] == 'l');
    assert("slider"@[0] == 's');
    assert("button"@[0] == 'b');
}

/// Builds the control that a definition describes; `None` where it
/// describes none.
pub fn deserialize_control(j: &Json) -> (r: Option<Control>)
    ensures
        match r {
            Some(c) => describes(j@, c),
            None => forall|c: Control| !describes(j@, c),
        },
    decreases j,
{
    proof {
        lemma_kinds_differ();
    }
    let ms = match j {
        Json::Object(ms) => ms,
        _ => { return None; },
    };
    proof {
        lemma_object_view(*ms);
    }
    let name: String = match get_member(ms, "name") {
        Some(Json::Str(n)) => n.clone(),
        _ => { return None; },
    };
    let kind = match get_member(ms, "type") {
        Some(Json::Str(k)) => k,
        _ => { return None; },
    };
    if text_is(kind, "slider") {
        Some(Control::Slider { name, state: None, location: None, label: None })
    } else if text_is(kind, "button") {
        Some(Control::Button { name, state: None, label: None })
    } else if text_is(kind, "label") {
        Some(Control::Label { name, text: String::new() })
    } else if text_is(kind, "group") {
        let at = match find_member(ms, "children") {
            Some(i) => i,
            None => { return None; },
        };
        let items = match &ms[at].1 {
            Json::Array(items) => items,
            _ => { return None; },
        };
        proof {
            lemma_array_view(*items);
        }
        if items.len() > 2147483647 {
            return None;
        }
        let mut children: Vec<Control> = Vec::new();
        let mut i: usize = 0;
        while i < items.len()
            invariant
                i <= items.len(),
                children@.len() == i,
                j@ matches JsonView::Object(v) && member(v, "children"@) == Some(
                    JsonView::Array(items_view(items@)),
                ),
                ms@[at as int].1 == Json::Array(*items),
                at < ms.len(),
                j == Json::Object(*ms),
                member(j@->Object_0, "type"@) == Some(JsonView::Str("group"@)),
                forall|k: int| 0 <= k < i ==> describes(items_view(items@)[k], #[trigger] children@[k]),
            decreases items.len() - i,
        {
            proof {
                assert(decreases_to!(*j => *ms));
                assert(decreases_to!(*ms => ms[at as int]));
                assert(decreases_to!(ms[at as int] => ms[at as int].1));
                let holder = ms[at as int].1;
                assert(holder is Array && holder->Array_0 == *items);
                assert(decreases_to!(holder => holder->Array_0));
                assert(decreases_to!(*items => items[i as int]));
            }
            match deserialize_control(&items[i]) {
                Some(c) => {
                    children.push(c);
                },
                None => {
                    proof {
                        lemma_kinds_differ();
                        assert forall|c: Control| !describes(j@, c) by {
                            if describes(j@, c) {
                                assert(c is Group);
                                let cs = c->children;
                                assert(describes(items_view(items@)[i as int], cs[i as int]));
                            }
                        }
                    }
                    return None;
                },
            }
            i = i + 1;
        }
        Some(Control::Group { name, children })
    } else {
        None
    }
}

/// A control tree with the title of its surface.
#[derive(Debug, PartialEq, Eq)]
pub struct ControlTree {
    pub title: String,
    pub root_control: Control,
}

/// Whether the document `j` defines the surface `t`: an object whose
/// `title` is a string and whose `root` describes the tree.
pub open spec fn defines(j: JsonView, t: ControlTree) -> bool {
    &&& j matches JsonView::Object(ms)
    &&& member(ms, "title"@) == Some(JsonView::Str(t.title@))
    &&& member(ms, "root"@) matches Some(root)
    &&& describes(root, t.root_control)
}

/// Builds the surface that a definition document defines; `None` where it
/// defines none.
pub fn deserialize_root(j: &Json) -> (r: Option<ControlTree>)
    ensures
        match r {
            Some(t) => defines(j@, t) && fits(t.root_control),
            None => forall|t: ControlTree| !defines(j@, t),
        },
{
    let ms = match j {
        Json::Object(ms) => ms,
        _ => { return None; },
    };
    proof {
        lemma_object_view(*ms);
    }
    let title: String = match get_member(ms, "title") {
        Some(Json::Str(t)) => t.clone(),
        _ => { return None; },
    };
    let root = match get_member(ms, "root") {
        Some(root) => root,
        None => { return None; },
    };
    match deserialize_control(root) {
        Some(c) => {
            proof {
                lemma_described_fits(root@, c);
            }
            Some(ControlTree { title, root_control: c })
        },
        None => None,
    }
}

/// The wire forms of a list of messages.
pub open spec fn encoded_all(s: Seq<UpdateMsgView>) -> Seq<JsonView> {
    Seq::new(s.len(), |i: int| encoded(s[i]))
}

/// The document with `state` as its member `state`: in place of the first
/// member of that name, or as a new last member. A document that is no
/// object stays as it is.
pub open spec fn with_state(doc: JsonView, state: Seq<JsonView>) -> JsonView {
    match doc {
        JsonView::Object(ms) => match key_position(ms, "state"@, 0) {
            Some(i) => JsonView::Object(ms.update(i, ("state"@, JsonView::Array(state)))),
            None => JsonView::Object(ms.push(("state"@, JsonView::Array(state)))),
        },
        _ => doc,
    }
}

/// The wire forms of a list of messages, as one array.
pub fn encode_updates(updates: &Vec<UpdateMsg>) -> (r: Json)
    ensures
        r@ == JsonView::Array(encoded_all(updates_view(updates@))),
{
    let mut items: Vec<Json> = Vec::new();
    let mut i: usize = 0;
    while i < updates.len()
        invariant
            i <= updates.len(),
            items@.len() == i,
            forall|k: int| 0 <= k < i ==> (#[trigger] items@[k])@ == encoded(updates@[k]@),
        decreases updates.len() - i,
    {
        items.push(encode_update_message(&updates[i]));
        i = i + 1;
    }
    proof {
        lemma_array_view(items);
        assert(items_view(items@) =~= encoded_all(updates_view(updates@)));
    }
    Json::Array(items)
}

/// Puts the state messages into a definition document, as its member
/// `state`.
pub fn merge_state(doc: Json, updates: &Vec<UpdateMsg>) -> (r: Json)
    ensures
        r@ == with_state(doc@, encoded_all(updates_view(updates@))),
{
    match doc {
        Json::Object(ms) => {
            let mut ms = ms;
            let ghost before = ms;
            proof {
                lemma_object_view(ms);
            }
            let state = encode_updates(updates);
            match find_member(&ms, "state") {
                Some(i) => {
                    ms.set(i, ("state".to_owned(), state));
                    proof {
                        lemma_object_view(ms);
                        assert(members_view(ms@) =~= members_view(before@).update(
                            i as int,
                            ("state"@, state@),
                        ));
                    }
                },
                None => {
                    ms.push(("state".to_owned(), state));
                    proof {
                        lemma_object_view(ms);
                        assert(members_view(ms@) =~= members_view(before@).push(
                            ("state"@, state@),
                        ));
                    }
                },
            }
            Json::Object(ms)
        },
        other => other,
    }
}

} // verus!
