use control_server::control_updates::{ButtonState, Number, SliderState, UpdateMsg};
use control_server::json::{
    decode_update_message, decode_update_text, encode_update_message, encode_update_text,
    parse_json, render_json, Json,
};

fn decimal(text: &str) -> Number {
    Number::Real(text.to_string())
}

fn all_messages() -> Vec<UpdateMsg> {
    let mut out = Vec::new();
    out.push(UpdateMsg::Label { control_id: vec![1, 2], label: "hello".to_string() });
    out.push(UpdateMsg::Label { control_id: vec![], label: String::new() });
    for state in [None, Some(ButtonState::Active), Some(ButtonState::Inactive)] {
        for label in [None, Some("press".to_string())] {
            out.push(UpdateMsg::Button { control_id: vec![0, 3], state, label });
        }
    }
    for state in [None, Some(SliderState::Active), Some(SliderState::Inactive)] {
        for location in [None, Some(decimal("0.25")), Some(Number::Int(1))] {
            for label in [None, Some("vol \"x\"".to_string())] {
                out.push(UpdateMsg::Slider {
                    control_id: vec![7],
                    state,
                    location: location.clone(),
                    label,
                });
            }
        }
    }
    out
}

#[test]
fn round_trip_as_documents() {
    for m in all_messages() {
        let doc = encode_update_message(&m);
        assert_eq!(decode_update_message(&doc), Some(m));
    }
}

#[test]
fn round_trip_as_text() {
    for m in all_messages() {
        let text = encode_update_text(&m).unwrap();
        assert_eq!(decode_update_text(&text), Some(m));
    }
}

#[test]
fn slider_wire_text() {
    let m = UpdateMsg::Slider {
        control_id: vec![0],
        state: None,
        location: Some(decimal("0.5")),
        label: None,
    };
    assert_eq!(
        encode_update_text(&m).unwrap(),
        "{\"control_id\":[0],\"location\":0.5,\"type\":\"slider\"}"
    );
}

#[test]
fn label_document_members() {
    let m = UpdateMsg::Label { control_id: vec![2, 0], label: "hi".to_string() };
    let expected = Json::Object(vec![
        ("type".to_string(), Json::Str("label".to_string())),
        (
            "control_id".to_string(),
            Json::Array(vec![Json::Number(Number::Int(2)), Json::Number(Number::Int(0))]),
        ),
        ("label".to_string(), Json::Str("hi".to_string())),
    ]);
    assert_eq!(encode_update_message(&m), expected);
}

#[test]
fn decode_wire_examples() {
    assert_eq!(
        decode_update_text("{\"type\":\"label\",\"control_id\":[1,0],\"label\":\"abc\"}"),
        Some(UpdateMsg::Label { control_id: vec![1, 0], label: "abc".to_string() })
    );
    assert_eq!(
        decode_update_text("{\"type\":\"button\",\"control_id\":[2],\"state\":\"Active\"}"),
        Some(UpdateMsg::Button {
            control_id: vec![2],
            state: Some(ButtonState::Active),
            label: None
        })
    );
    assert_eq!(
        decode_update_text(
            "{\"type\":\"slider\",\"control_id\":[0],\"state\":\"Inactive\",\"location\":0.7,\"label\":\"v\"}"
        ),
        Some(UpdateMsg::Slider {
            control_id: vec![0],
            state: Some(SliderState::Inactive),
            location: Some(decimal("0.7")),
            label: Some("v".to_string())
        })
    );
}

#[test]
fn decode_rejects_malformed() {
    assert_eq!(decode_update_text("not json"), None);
    assert_eq!(decode_update_text("[1,2]"), None);
    assert_eq!(decode_update_text("{\"type\":\"knob\",\"control_id\":[0]}"), None);
    assert_eq!(decode_update_text("{\"type\":\"label\",\"control_id\":[0]}"), None);
    assert_eq!(decode_update_text("{\"type\":\"label\",\"label\":\"x\"}"), None);
    assert_eq!(decode_update_text("{\"type\":\"slider\",\"control_id\":[0.5]}"), None);
    assert_eq!(decode_update_text("{\"type\":\"slider\",\"control_id\":[4294967296]}"), None);
    assert_eq!(decode_update_text("{\"type\":\"slider\",\"control_id\":\"0\"}"), None);
    assert_eq!(
        decode_update_text("{\"type\":\"button\",\"control_id\":[0],\"state\":\"Pressed\"}"),
        None
    );
    assert_eq!(
        decode_update_text("{\"type\":\"slider\",\"control_id\":[0],\"location\":\"far\"}"),
        None
    );
    assert_eq!(
        decode_update_text("{\"type\":\"button\",\"control_id\":[0],\"label\":3}"),
        None
    );
}

#[test]
fn parse_gives_the_document() {
    let doc = parse_json("{\"b\":[true,null,-3,1.5],\"a\":\"x\"}").unwrap();
    let expected = Json::Object(vec![
        ("a".to_string(), Json::Str("x".to_string())),
        (
            "b".to_string(),
            Json::Array(vec![
                Json::Bool(true),
                Json::Null,
                Json::Number(Number::Int(-3)),
                Json::Number(decimal("1.5")),
            ]),
        ),
    ]);
    assert_eq!(doc, expected);
    assert_eq!(parse_json("{"), None);
}

#[test]
fn render_gives_the_text() {
    let doc = Json::Object(vec![
        ("n".to_string(), Json::Number(decimal("0.125"))),
        ("k".to_string(), Json::Array(vec![Json::Bool(false), Json::Null])),
    ]);
    assert_eq!(render_json(&doc).unwrap(), "{\"k\":[false,null],\"n\":0.125}");
    assert_eq!(render_json(&Json::Number(decimal("far"))).unwrap(), "null");
}
