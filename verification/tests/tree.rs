use control_server::control_updates::{ButtonState, Number, SliderState, UpdateMsg};
use control_server::controls::{
    check_fits, cm_to_update_array, control_map_to_name_map, get_um_id, make_control_map,
    Control, ControlMap, Entry,
};
use control_server::json::{deserialize_control, deserialize_root, parse_json};

fn slider(name: &str) -> Control {
    Control::Slider { name: name.to_string(), state: None, location: None, label: None }
}

fn button(name: &str) -> Control {
    Control::Button { name: name.to_string(), state: None, label: None }
}

fn label(name: &str, text: &str) -> Control {
    Control::Label { name: name.to_string(), text: text.to_string() }
}

fn group(name: &str, children: Vec<Control>) -> Control {
    Control::Group { name: name.to_string(), children }
}

fn sample() -> Control {
    group(
        "root",
        vec![
            slider("vol"),
            group("row", vec![button("go"), label("title", "t")]),
            button("stop"),
        ],
    )
}

fn ids(cm: &ControlMap) -> Vec<Vec<i32>> {
    cm.entries.iter().map(|e| e.id.clone()).collect()
}

#[test]
fn map_has_one_entry_per_node_under_its_path() {
    let cm = make_control_map(&sample());
    assert_eq!(cm.len(), 6);
    assert_eq!(
        ids(&cm),
        vec![vec![], vec![0], vec![1], vec![1, 0], vec![1, 1], vec![2]]
    );
    assert_eq!(cm.get(&vec![]).unwrap().name(), "root");
    assert_eq!(cm.get(&vec![0]).unwrap().name(), "vol");
    assert_eq!(cm.get(&vec![1]).unwrap().name(), "row");
    assert_eq!(cm.get(&vec![1, 0]).unwrap().name(), "go");
    assert_eq!(cm.get(&vec![1, 1]), Some(&label("title", "t")));
    assert_eq!(cm.get(&vec![2]), Some(&button("stop")));
    assert_eq!(cm.get(&vec![3]), None);
    assert_eq!(cm.get(&vec![0, 0]), None);
}

#[test]
fn small_trees_fit() {
    assert!(check_fits(&sample()));
    assert!(check_fits(&slider("s")));
    assert!(check_fits(&group("g", vec![])));
}

#[test]
fn map_of_a_single_control() {
    let cm = make_control_map(&slider("only"));
    assert_eq!(cm.len(), 1);
    assert_eq!(ids(&cm), vec![Vec::<i32>::new()]);
    let empty = make_control_map(&group("g", vec![]));
    assert_eq!(empty.len(), 1);
}

#[test]
fn partial_update_changes_only_what_is_present() {
    let start = Control::Slider {
        name: "vol".to_string(),
        state: Some(SliderState::Active),
        location: Some(Number::Real("0.2".to_string())),
        label: Some("foo".to_string()),
    };
    let mut cm = make_control_map(&group("root", vec![start, button("b")]));
    let msg = UpdateMsg::Slider {
        control_id: vec![0],
        state: None,
        location: Some(Number::Real("0.7".to_string())),
        label: None,
    };
    assert!(cm.apply(&msg));
    assert_eq!(
        cm.get(&vec![0]),
        Some(&Control::Slider {
            name: "vol".to_string(),
            state: Some(SliderState::Active),
            location: Some(Number::Real("0.7".to_string())),
            label: Some("foo".to_string()),
        })
    );
    assert_eq!(cm.get(&vec![1]), Some(&button("b")));
    assert!(cm.apply(&msg));
    assert_eq!(
        cm.get(&vec![0]).unwrap().full_update(&vec![0]),
        Some(UpdateMsg::Slider {
            control_id: vec![0],
            state: Some(SliderState::Active),
            location: Some(Number::Real("0.7".to_string())),
            label: Some("foo".to_string()),
        })
    );
}

#[test]
fn update_for_unknown_id_changes_nothing() {
    let mut cm = make_control_map(&sample());
    let before = make_control_map(&sample());
    let msgs = vec![
        UpdateMsg::Label { control_id: vec![9], label: "x".to_string() },
        UpdateMsg::Button { control_id: vec![1, 5], state: Some(ButtonState::Active), label: None },
        UpdateMsg::Slider {
            control_id: vec![0, 0],
            state: None,
            location: Some(Number::Int(1)),
            label: None,
        },
    ];
    for m in msgs {
        assert!(!cm.apply(&m));
        assert_eq!(cm, before);
    }
}

#[test]
fn update_of_another_kind_changes_nothing() {
    let mut cm = make_control_map(&sample());
    let before = make_control_map(&sample());
    assert!(cm.apply(&UpdateMsg::Label { control_id: vec![0], label: "x".to_string() }));
    assert!(cm.apply(&UpdateMsg::Button {
        control_id: vec![],
        state: Some(ButtonState::Active),
        label: None
    }));
    assert_eq!(cm, before);
}

#[test]
fn button_and_label_updates() {
    let mut cm = make_control_map(&sample());
    cm.apply(&UpdateMsg::Button {
        control_id: vec![1, 0],
        state: Some(ButtonState::Active),
        label: Some("Go!".to_string()),
    });
    cm.apply(&UpdateMsg::Button { control_id: vec![1, 0], state: None, label: None });
    cm.apply(&UpdateMsg::Label { control_id: vec![1, 1], label: "new".to_string() });
    assert_eq!(
        cm.get(&vec![1, 0]),
        Some(&Control::Button {
            name: "go".to_string(),
            state: Some(ButtonState::Active),
            label: Some("Go!".to_string())
        })
    );
    assert_eq!(cm.get(&vec![1, 1]), Some(&label("title", "new")));
}

#[test]
fn snapshot_lists_the_controls_with_state() {
    let cm = make_control_map(&sample());
    let snap = cm_to_update_array(&cm);
    assert_eq!(
        snap,
        vec![
            UpdateMsg::Slider { control_id: vec![0], state: None, location: None, label: None },
            UpdateMsg::Button { control_id: vec![1, 0], state: None, label: None },
            UpdateMsg::Label { control_id: vec![1, 1], label: "t".to_string() },
            UpdateMsg::Button { control_id: vec![2], state: None, label: None },
        ]
    );
}

#[test]
fn later_name_wins() {
    let tree = group("root", vec![slider("a"), button("a"), label("b", "")]);
    let cm = make_control_map(&tree);
    let names = control_map_to_name_map(&cm);
    assert_eq!(names.entries.len(), 4);
    assert_eq!(names.get("a"), Some(vec![1]));
    assert_eq!(names.get("b"), Some(vec![2]));
    assert_eq!(names.get("root"), Some(vec![]));
    assert_eq!(names.get("c"), None);
}

#[test]
fn first_entry_with_an_id_is_found() {
    let cm = ControlMap {
        entries: vec![
            Entry { id: vec![1], control: button("first") },
            Entry { id: vec![1], control: button("second") },
        ],
    };
    assert_eq!(cm.find(&vec![1]), Some(0));
    assert_eq!(cm.get(&vec![1]).unwrap().name(), "first");
}

#[test]
fn kinds_and_blank_updates() {
    assert_eq!(sample().control_type(), "group");
    assert_eq!(slider("s").control_type(), "slider");
    assert_eq!(button("s").control_type(), "button");
    assert_eq!(label("s", "").control_type(), "label");
    assert_eq!(sample().empty_update(&vec![]), None);
    assert_eq!(
        label("s", "text").empty_update(&vec![4]),
        Some(UpdateMsg::Label { control_id: vec![4], label: String::new() })
    );
    assert_eq!(sample().detached(), group("root", vec![]));
}

#[test]
fn definition_gives_the_tree() {
    let text = "{\"title\":\"demo\",\"root\":{\"type\":\"group\",\"name\":\"root\",\"children\":[{\"type\":\"slider\",\"name\":\"vol\"},{\"type\":\"group\",\"name\":\"row\",\"children\":[{\"type\":\"button\",\"name\":\"go\"},{\"type\":\"label\",\"name\":\"title\"}]}]}}";
    let tree = deserialize_root(&parse_json(text).unwrap()).unwrap();
    assert_eq!(tree.title, "demo");
    assert_eq!(
        tree.root_control,
        group(
            "root",
            vec![slider("vol"), group("row", vec![button("go"), label("title", "")])]
        )
    );
}

#[test]
fn definition_rejects_what_is_none() {
    let bad = [
        "[]",
        "{\"root\":{\"type\":\"slider\",\"name\":\"a\"}}",
        "{\"title\":\"t\"}",
        "{\"title\":3,\"root\":{\"type\":\"slider\",\"name\":\"a\"}}",
        "{\"title\":\"t\",\"root\":{\"type\":\"knob\",\"name\":\"a\"}}",
        "{\"title\":\"t\",\"root\":{\"type\":\"slider\"}}",
        "{\"title\":\"t\",\"root\":{\"type\":\"group\",\"name\":\"g\"}}",
        "{\"title\":\"t\",\"root\":{\"type\":\"group\",\"name\":\"g\",\"children\":{}}}",
        "{\"title\":\"t\",\"root\":{\"type\":\"group\",\"name\":\"g\",\"children\":[{\"type\":\"label\"}]}}",
    ];
    for text in bad {
        assert!(deserialize_root(&parse_json(text).unwrap()).is_none());
    }
    assert!(deserialize_control(&parse_json("3").unwrap()).is_none());
}

#[test]
fn update_in_place() {
    let mut c = Control::Slider {
        name: "vol".to_string(),
        state: Some(SliderState::Active),
        location: Some(Number::Real("0.2".to_string())),
        label: Some("foo".to_string()),
    };
    let msg = UpdateMsg::Slider {
        control_id: vec![0],
        state: None,
        location: Some(Number::Real("0.7".to_string())),
        label: None,
    };
    c.update(&msg);
    let expected = Control::Slider {
        name: "vol".to_string(),
        state: Some(SliderState::Active),
        location: Some(Number::Real("0.7".to_string())),
        label: Some("foo".to_string()),
    };
    assert_eq!(c, expected);
    c.update(&msg);
    assert_eq!(c, expected);
    c.update(&UpdateMsg::Label { control_id: vec![0], label: "x".to_string() });
    assert_eq!(c, expected);
    assert_eq!(c.with_update(&msg), expected);
    let mut g = sample();
    g.update(&msg);
    assert_eq!(g, sample());
    let mut l = label("l", "old");
    l.update(&UpdateMsg::Label { control_id: vec![], label: "new".to_string() });
    assert_eq!(l, label("l", "new"));
    assert_eq!(get_um_id(&msg), &vec![0]);
}
