use kirie::json::{parse, Json, JsonMap};
use kirie::property::{NumberReading, PropertyBag, PropertyKind, PropertyValue, TextReading};
use kirie::resolve::{resolve_us, SceneModel};
use kirie::scene::Scene;
use kirie::user::{ScriptBinding, UserSetting};
use kirie::value::Scalar;

fn number(v: f64) -> PropertyValue {
    PropertyValue::Number {
        bits: v.to_bits(),
        single: (v as f32).to_bits(),
        shown: format!("{v}"),
    }
}

#[test]
fn label_properties_resolve_to_empty_text() {
    let bag = PropertyBag::from_project(&vec![
        ("heading".to_owned(), PropertyKind::Text),
        (
            "name".to_owned(),
            PropertyKind::TextInput { value: "TYO".to_owned(), single: 0 },
        ),
    ]);
    assert!(matches!(bag.get("heading"), Some(PropertyValue::Text { text, .. }) if text.is_empty()));
    assert!(matches!(bag.get("name"), Some(PropertyValue::Text { text, .. }) if text == "TYO"));
}

fn scripted_scale() -> UserSetting<Scalar> {
    let properties = parse(
        br#"{"minvalue": { "user": "newproperty44", "value": 0.8 },
            "maxvalue": { "user": "newproperty46", "value": 1.2 }}"#,
    )
    .expect("a document");
    let Json::Table(properties) = properties else {
        panic!("a table");
    };
    UserSetting {
        value: Scalar::Single(1.0f32.to_bits()),
        user: None,
        script: Some(ScriptBinding {
            source: "export function update() {}".to_owned(),
            properties,
        }),
    }
}

fn number_at(m: &JsonMap, key: &str) -> f64 {
    match m.get(key) {
        Some(Json::Real(b)) => f64::from_bits(*b),
        other => panic!("a number, not {other:?}"),
    }
}

#[test]
fn a_scripted_setting_takes_its_user_bound_properties() {
    let mut bag = PropertyBag::new();
    bag.insert("newproperty44", number(1.0));
    bag.insert("newproperty46", number(1.0));
    let mut us = scripted_scale();
    resolve_us(&mut us, &bag);
    let props = &us.script.as_ref().expect("a script").properties;
    assert_eq!(number_at(props, "minvalue"), 1.0);
    assert_eq!(number_at(props, "maxvalue"), 1.0);
}

#[test]
fn a_scripted_setting_keeps_its_fallback_when_unbound() {
    let bag = PropertyBag::new();
    let mut us = scripted_scale();
    resolve_us(&mut us, &bag);
    let props = &us.script.as_ref().expect("a script").properties;
    assert_eq!(number_at(props, "minvalue"), 0.8);
}

struct Rng(u64);

impl Rng {
    fn next(&mut self) -> u64 {
        self.0 ^= self.0 << 13;
        self.0 ^= self.0 >> 7;
        self.0 ^= self.0 << 17;
        self.0
    }

    fn below(&mut self, n: usize) -> usize {
        (self.next() % n.max(1) as u64) as usize
    }
}

fn synthetic_seed() -> String {
    r#"{"camera":{"center":"0 0 0","eye":"0 0 1","up":"0 1 0"},
        "general":{"ambientcolor":"0.3 0.3 0.3","bloom":false,"clearcolor":"0 0 0",
                   "orthogonalprojection":{"height":1080,"width":1920}},
        "objects":[{"id":1,"name":"o","image":"models/a.json","origin":"0 0 0",
                    "scale":"1 1 1","angles":"0 0 0","size":"100 100","visible":true,
                    "effects":[{"file":"effects/x/effect.json","id":2,"visible":true,
                                "passes":[{"id":3,"textures":[null,"t"],
                                           "constantshadervalues":{"a":1.0}}]}],
                    "animationlayers":[{"id":4,"name":"idle","animation":7,"rate":1.0,
                                        "blend":1.0,"visible":true,"additive":false}]}],
        "version":1}"#
        .to_owned()
}

#[test]
fn seeds_parse_so_the_fuzz_reaches_real_code() {
    assert!(Scene::from_slice(synthetic_seed().as_bytes()).is_ok(), "synthetic scene must parse");
}

#[test]
fn scene_parsing_never_panics_on_mutated_input() {
    let seed = synthetic_seed();
    let mut rng = Rng(0x9e37_79b9_7f4a_7c15);
    for round in 0..3_000u32 {
        rng.below(1);
        let mut bytes = seed.clone().into_bytes();
        match round % 4 {
            0 => {
                for _ in 0..1 + rng.below(6) {
                    let at = rng.below(bytes.len());
                    bytes[at] = (rng.next() % 128) as u8;
                }
            }
            1 => {
                let cut = rng.below(bytes.len());
                bytes.truncate(cut);
            }
            2 => {
                let needles: [&[u8]; 6] = [
                    b"1e400", b"-1", b"null", b"[]", b"{}", b"18446744073709551616",
                ];
                let needle = needles[rng.below(needles.len())];
                let at = rng.below(bytes.len());
                bytes.splice(at..at, needle.iter().copied());
            }
            _ => {
                let at = rng.below(bytes.len());
                let len = rng.below(8192).min(bytes.len() - at);
                bytes = bytes[at..at + len].to_vec();
            }
        }
        let _ = Scene::from_slice(&bytes);
    }
}

#[test]
fn the_last_properties_decide() {
    let scene = |visible: bool| {
        let mut bag = PropertyBag::new();
        bag.insert("show", PropertyValue::Bool(visible));
        bag
    };
    let json = br#"{
        "camera": { "eye": "0 0 1", "center": "0 0 0", "up": "0 1 0" },
        "general": { "clearcolor": "0.1 0.2 0.3" },
        "objects": [ { "image": "models/test.json", "origin": "1 2 3",
                       "visible": { "value": true, "user": "show" } } ]
    }"#;
    let mut model = SceneModel::resolve(Scene::from_slice(json).expect("a scene"), &scene(true));
    assert!(model.scene.objects[0].base.visible.value);
    model.reresolve(&scene(false));
    assert!(!model.scene.objects[0].base.visible.value);
    model.reresolve(&scene(true));
    assert!(model.scene.objects[0].base.visible.value);
}

fn reading(number: Option<f64>, channels: &[Option<f32>]) -> TextReading {
    TextReading {
        number: number.map(|v| NumberReading {
            bits: v.to_bits(),
            single: (v as f32).to_bits(),
            shown: format!("{v}"),
        }),
        channels: channels.iter().map(|c| c.map(f32::to_bits)).collect(),
        color_shown: String::new(),
        single: 0,
        trimmed_single: 0,
    }
}

#[test]
fn properties_are_set_from_text() {
    let mut bag = PropertyBag::new();
    bag.insert("b", PropertyValue::Bool(false));
    bag.insert("n", number(0.0));
    bag.insert("c", PropertyValue::Color { rgba: [0; 4], shown: String::new() });
    assert!(bag.set_from_str("b", " True ", &reading(None, &[])));
    assert!(matches!(bag.get("b"), Some(PropertyValue::Bool(true))));
    assert!(bag.set_from_str("n", "2.5", &reading(Some(2.5), &[])));
    assert!(matches!(bag.get("n"), Some(PropertyValue::Number { bits, .. }) if *bits == 2.5f64.to_bits()));
    assert!(!bag.set_from_str("n", "x", &reading(None, &[])));
    assert!(bag.set_from_str("c", "1 0.5", &reading(None, &[Some(1.0), Some(0.5)])));
    let one = 1.0f32.to_bits();
    assert!(matches!(bag.get("c"),
        Some(PropertyValue::Color { rgba, .. }) if *rgba == [one, 0.5f32.to_bits(), 0, one]));
    assert!(!bag.set_from_str("c", "1 x", &reading(None, &[Some(1.0), None])));
    assert!(!bag.set_from_str("c", "", &reading(None, &[])));
    assert!(!bag.set_from_str("missing", "1", &reading(Some(1.0), &[])));
    assert_eq!(bag.len(), 3);
}

#[test]
fn documents_are_read_and_refused() {
    let v = parse(br#"{"a": [1, -2, 18446744073709551615, 2.5, "x", null, true], "b": {}}"#).expect("valid");
    let items = v.get("a").and_then(|a| a.as_list()).expect("a list");
    assert!(matches!(items[0], Json::Int(1)));
    assert!(matches!(items[1], Json::Int(-2)));
    assert!(matches!(items[2], Json::UInt(u64::MAX)));
    assert!(matches!(items[3], Json::Real(b) if b == 2.5f64.to_bits()));
    assert!(matches!(&items[4], Json::Text(t) if t == "x"));
    assert!(matches!(items[5], Json::Null));
    assert!(matches!(items[6], Json::Bool(true)));
    assert!(parse(b"{").is_err());
    assert!(parse(b"").is_err());
}

#[test]
fn faulty_scenes_are_told_apart() {
    let fault = |s: &str| Scene::from_slice(s.as_bytes()).expect_err("a faulty scene");
    assert!(fault("{").message().starts_with("invalid JSON: "));
    assert_eq!(fault("[]").message(), "scene.json root is not a JSON object");
    assert_eq!(fault("{}").message(), "required section `camera` missing");
    let general = r#""general": {}, "objects": []"#;
    assert_eq!(
        fault(&format!(r#"{{ "camera": {{ "center": "0 0 0", "up": "0 1 0" }}, {general} }}"#)).message(),
        "camera field `eye` missing"
    );
    let short = format!(
        r#"{{ "camera": {{ "eye": "0 0", "center": "0 0 0", "up": "0 1 0" }}, {general} }}"#
    );
    assert_eq!(
        fault(&short).message(),
        "camera field `eye`: vector has 2 components (expected 3)"
    );
}
