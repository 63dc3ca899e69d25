use control_server::broadcaster::Broadcaster;
use control_server::control_updates::{ButtonState, Number, SliderState, UpdateMsg};
use control_server::json::{get_member, parse_json, Json};
use control_server::{
    Action, ConnState, ControlInfo, ControlServer, DefinitionError, Frame, Outgoing, Received,
};

const ONE_SLIDER: &str =
    "{\"title\":\"t\",\"root\":{\"type\":\"group\",\"name\":\"root\",\"children\":[{\"type\":\"slider\",\"name\":\"vol\"}]}}";

const PANEL: &str = "{\"title\":\"p\",\"root\":{\"type\":\"group\",\"name\":\"root\",\"children\":[{\"type\":\"label\",\"name\":\"caption\"},{\"type\":\"button\",\"name\":\"go\"},{\"type\":\"slider\",\"name\":\"vol\"}]}}";

fn peers(list: &[&str]) -> Vec<String> {
    list.iter().map(|p| p.to_string()).collect()
}

fn server_with(definition: &str, connected: &[&str]) -> ControlServer {
    let mut s = ControlServer::new(definition).unwrap();
    for p in connected {
        s.bc.register(p);
    }
    s
}

#[test]
fn broadcast_reaches_all_and_others_leaves_one_out() {
    let mut bc = Broadcaster::new();
    assert_eq!(bc.broadcast(), Vec::<String>::new());
    bc.register("A");
    bc.register("B");
    bc.register("C");
    assert_eq!(bc.broadcast(), peers(&["A", "B", "C"]));
    assert_eq!(bc.broadcast_others("A"), peers(&["B", "C"]));
    assert_eq!(bc.broadcast_others("B"), peers(&["A", "C"]));
    assert_eq!(bc.broadcast_others("D"), peers(&["A", "B", "C"]));
}

#[test]
fn deregister_removes_the_peer() {
    let mut bc = Broadcaster::new();
    bc.register("A");
    bc.register("B");
    bc.register("A");
    bc.deregister("A");
    assert_eq!(bc.broadcast(), peers(&["B"]));
    bc.deregister("Z");
    assert_eq!(bc.broadcast(), peers(&["B"]));
    bc.deregister("B");
    assert_eq!(bc.broadcast(), Vec::<String>::new());
}

#[test]
fn new_server_holds_the_definition() {
    let s = ControlServer::new(ONE_SLIDER).unwrap();
    assert_eq!(s.ci.guijson, ONE_SLIDER);
    assert_eq!(s.ci.cm.len(), 2);
    assert_eq!(s.get_name(&vec![0]), Some("vol".to_string()));
    assert_eq!(s.get_name(&vec![]), Some("root".to_string()));
    assert_eq!(s.get_name(&vec![1]), None);
    assert_eq!(s.ci.get_name(&vec![0]), Some("vol".to_string()));
    assert_eq!(s.get_cid_by_name("vol"), Some(vec![0]));
    assert_eq!(s.get_cid_by_name("nope"), None);
    assert_eq!(s.bc.broadcast(), Vec::<String>::new());
}

#[test]
fn bad_definitions_are_errors() {
    assert_eq!(ControlServer::new("{").err(), Some(DefinitionError::NotJson));
    assert_eq!(ControlServer::new("{}").err(), Some(DefinitionError::NotDefinition));
    assert_eq!(ControlInfo::from_definition("").err(), Some(DefinitionError::NotJson));
    assert_eq!(
        ControlInfo::from_definition("{\"title\":\"t\",\"root\":[]}").err(),
        Some(DefinitionError::NotDefinition)
    );
}

#[test]
fn make_update_msg_by_name() {
    let s = ControlServer::new(PANEL).unwrap();
    assert_eq!(
        s.make_update_msg("vol"),
        Some(UpdateMsg::Slider { control_id: vec![2], state: None, location: None, label: None })
    );
    assert_eq!(
        s.make_update_msg("go"),
        Some(UpdateMsg::Button { control_id: vec![1], state: None, label: None })
    );
    assert_eq!(
        s.make_update_msg("caption"),
        Some(UpdateMsg::Label { control_id: vec![0], label: String::new() })
    );
    assert_eq!(s.make_update_msg("root"), None);
    assert_eq!(s.make_update_msg("nope"), None);
}

#[test]
fn update_applies_and_goes_to_every_peer() {
    let mut s = server_with(PANEL, &["A", "B"]);
    let msg = UpdateMsg::Button {
        control_id: vec![1],
        state: Some(ButtonState::Active),
        label: None,
    };
    let out = s.update(&msg);
    assert_eq!(
        out,
        Some(Outgoing {
            message: "{\"control_id\":[1],\"state\":\"Active\",\"type\":\"button\"}".to_string(),
            recipients: peers(&["A", "B"]),
        })
    );
    assert_eq!(
        s.ci.cm.get(&vec![1]).unwrap().full_update(&vec![1]),
        Some(UpdateMsg::Button {
            control_id: vec![1],
            state: Some(ButtonState::Active),
            label: None
        })
    );
    let unknown = UpdateMsg::Label { control_id: vec![5], label: "x".to_string() };
    assert_eq!(s.update(&unknown), None);
}

#[test]
fn updates_by_name() {
    let mut s = server_with(PANEL, &["A"]);
    let out = s.update_label("caption", "hello").unwrap();
    assert_eq!(out.message, "{\"control_id\":[0],\"label\":\"hello\",\"type\":\"label\"}");
    assert_eq!(out.recipients, peers(&["A"]));
    let out = s.update_button("go", Some(ButtonState::Inactive), Some("Go".to_string())).unwrap();
    assert_eq!(
        out.message,
        "{\"control_id\":[1],\"label\":\"Go\",\"state\":\"Inactive\",\"type\":\"button\"}"
    );
    let out = s
        .update_slider(
            "vol",
            Some(SliderState::Active),
            Some(Number::Real("0.25".to_string())),
            None,
        )
        .unwrap();
    assert_eq!(
        out.message,
        "{\"control_id\":[2],\"location\":0.25,\"state\":\"Active\",\"type\":\"slider\"}"
    );
    assert_eq!(
        s.ci.cm.get(&vec![2]).unwrap().full_update(&vec![2]),
        Some(UpdateMsg::Slider {
            control_id: vec![2],
            state: Some(SliderState::Active),
            location: Some(Number::Real("0.25".to_string())),
            label: None
        })
    );
    let before = ControlServer::new(PANEL).unwrap().ci.cm;
    let mut t = server_with(PANEL, &["A"]);
    assert_eq!(t.update_label("nope", "x"), None);
    assert_eq!(t.update_button("nope", None, None), None);
    assert_eq!(t.update_slider("nope", None, None, None), None);
    assert_eq!(t.ci.cm, before);
}

#[test]
fn reload_replaces_all_three_parts() {
    let mut s = server_with(ONE_SLIDER, &["A", "B"]);
    let out = s.load_gui_string(PANEL).unwrap();
    assert_eq!(out.message, PANEL);
    assert_eq!(out.recipients, peers(&["A", "B"]));
    let fresh = ControlServer::new(PANEL).unwrap();
    assert_eq!(s.ci, fresh.ci);
    assert_eq!(s.bc.broadcast(), peers(&["A", "B"]));
    let again = s.load_gui_string(ONE_SLIDER).unwrap();
    assert_eq!(again.message, ONE_SLIDER);
    assert_eq!(s.ci, ControlServer::new(ONE_SLIDER).unwrap().ci);
}

#[test]
fn bad_reload_changes_nothing() {
    let mut s = server_with(ONE_SLIDER, &["A"]);
    s.update_slider("vol", None, Some(Number::Real("0.5".to_string())), None);
    let mut same = server_with(ONE_SLIDER, &["A"]);
    same.update_slider("vol", None, Some(Number::Real("0.5".to_string())), None);
    assert_eq!(s.load_gui_string("{\"title\":"), Err(DefinitionError::NotJson));
    assert_eq!(s, same);
    assert_eq!(s.load_gui_string("{\"title\":\"x\"}"), Err(DefinitionError::NotDefinition));
    assert_eq!(s, same);
}

#[test]
fn client_update_goes_to_the_other_clients_as_it_came() {
    let mut s = server_with(ONE_SLIDER, &["first", "second"]);
    let frame = "{\"type\":\"slider\",\"control_id\":[0],\"location\":0.5}";
    let got = s.receive_text("first", frame);
    assert_eq!(
        got.decoded,
        Some(UpdateMsg::Slider {
            control_id: vec![0],
            state: None,
            location: Some(Number::Real("0.5".to_string())),
            label: None
        })
    );
    assert_eq!(got.recipients, peers(&["second"]));
    assert_eq!(
        s.ci.cm.get(&vec![0]).unwrap().full_update(&vec![0]),
        Some(UpdateMsg::Slider {
            control_id: vec![0],
            state: None,
            location: Some(Number::Real("0.5".to_string())),
            label: None
        })
    );
}

#[test]
fn malformed_or_unknown_frames_reach_nobody() {
    let mut s = server_with(ONE_SLIDER, &["first", "second"]);
    let before = ControlServer::new(ONE_SLIDER).unwrap().ci;
    let got = s.receive_text("first", "garbage");
    assert_eq!(got.decoded, None);
    assert_eq!(got.recipients, Vec::<String>::new());
    let got = s.receive_text("first", "{\"type\":\"label\",\"control_id\":[9],\"label\":\"x\"}");
    assert_eq!(
        got.decoded,
        Some(UpdateMsg::Label { control_id: vec![9], label: "x".to_string() })
    );
    assert_eq!(got.recipients, Vec::<String>::new());
    assert_eq!(s.ci, before);
}

#[test]
fn welcome_holds_the_definition_and_the_state() {
    let s = ControlServer::new(ONE_SLIDER).unwrap();
    let text = s.welcome().unwrap();
    let doc = parse_json(&text).unwrap();
    let members = match &doc {
        Json::Object(ms) => ms,
        _ => panic!("the welcome is no object"),
    };
    assert_eq!(get_member(members, "title"), Some(&Json::Str("t".to_string())));
    let definition = parse_json(ONE_SLIDER).unwrap();
    let root = match &definition {
        Json::Object(ms) => get_member(ms, "root").unwrap(),
        _ => panic!("the definition is no object"),
    };
    assert_eq!(get_member(members, "root"), Some(root));
    let state = match get_member(members, "state") {
        Some(Json::Array(items)) => items,
        _ => panic!("the welcome has no state"),
    };
    assert_eq!(state.len(), 1);
    assert_eq!(
        state[0],
        Json::Object(vec![
            (
                "control_id".to_string(),
                Json::Array(vec![Json::Number(Number::Int(0))])
            ),
            ("type".to_string(), Json::Str("slider".to_string())),
        ])
    );
}

#[test]
fn welcome_tells_the_current_state() {
    let mut s = ControlServer::new(ONE_SLIDER).unwrap();
    s.update_slider("vol", Some(SliderState::Active), Some(Number::Real("0.5".to_string())), None);
    assert_eq!(
        s.welcome().unwrap(),
        "{\"root\":{\"children\":[{\"name\":\"vol\",\"type\":\"slider\"}],\"name\":\"root\",\"type\":\"group\"},\"state\":[{\"control_id\":[0],\"location\":0.5,\"state\":\"Active\",\"type\":\"slider\"}],\"title\":\"t\"}"
    );
}

#[test]
fn welcome_replaces_a_state_that_the_definition_holds() {
    let text = "{\"state\":7,\"title\":\"t\",\"root\":{\"type\":\"label\",\"name\":\"l\"}}";
    let s = ControlServer::new(text).unwrap();
    assert_eq!(
        s.welcome().unwrap(),
        "{\"root\":{\"name\":\"l\",\"type\":\"label\"},\"state\":[{\"control_id\":[],\"label\":\"\",\"type\":\"label\"}],\"title\":\"t\"}"
    );
}

#[test]
fn frames_of_an_open_connection() {
    let mut s = server_with(ONE_SLIDER, &["second"]);
    assert_eq!(s.open("first"), ConnState::Open);
    assert_eq!(s.bc.broadcast(), peers(&["second", "first"]));
    let step = s.on_frame(ConnState::Open, "first", Frame::Ping(vec![1, 2, 3]));
    assert_eq!(step.action, Action::Pong(vec![1, 2, 3]));
    assert_eq!(step.state, ConnState::Open);
    let step = s.on_frame(ConnState::Open, "first", Frame::Other);
    assert_eq!(step.action, Action::Ignore);
    assert_eq!(step.state, ConnState::Open);
    let frame = "{\"type\":\"slider\",\"control_id\":[0],\"location\":0.5}";
    let step = s.on_frame(ConnState::Open, "first", Frame::Text(frame.to_string()));
    assert_eq!(step.state, ConnState::Open);
    assert_eq!(
        step.action,
        Action::Forward(Received {
            decoded: Some(UpdateMsg::Slider {
                control_id: vec![0],
                state: None,
                location: Some(Number::Real("0.5".to_string())),
                label: None
            }),
            recipients: peers(&["second"]),
        })
    );
    let step = s.on_frame(ConnState::Open, "first", Frame::Text("oops".to_string()));
    assert_eq!(
        step.action,
        Action::Forward(Received { decoded: None, recipients: vec![] })
    );
    let step = s.on_frame(ConnState::Open, "first", Frame::Close);
    assert_eq!(step.action, Action::Close);
    assert_eq!(step.state, ConnState::Closing);
    assert_eq!(s.bc.broadcast(), peers(&["second"]));
    assert_eq!(s.close("first"), ConnState::Closed);
    assert_eq!(s.close("second"), ConnState::Closed);
    assert_eq!(s.bc.broadcast(), Vec::<String>::new());
}

#[test]
fn a_connection_that_is_not_open_takes_no_frame() {
    let mut s = server_with(ONE_SLIDER, &["first", "second"]);
    let same = server_with(ONE_SLIDER, &["first", "second"]);
    let frame = "{\"type\":\"slider\",\"control_id\":[0],\"location\":0.5}";
    for state in [ConnState::Connecting, ConnState::Closing, ConnState::Closed] {
        let step = s.on_frame(state, "first", Frame::Text(frame.to_string()));
        assert_eq!(step.action, Action::Ignore);
        assert_eq!(step.state, state);
        let step = s.on_frame(state, "first", Frame::Close);
        assert_eq!(step.action, Action::Ignore);
        assert_eq!(step.state, state);
        assert_eq!(s, same);
    }
}
