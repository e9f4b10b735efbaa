use ipfs_uploader::metadata::{Attribute, AttributeValue, NftMetadata};

fn sample() -> NftMetadata {
    NftMetadata {
        name: "a \"quoted\" \\ name".to_string(),
        description: "line\nbreak\ttab\r\u{8}\u{c}\u{1}\u{1f}\u{7f} é 日本 \u{1F600}".to_string(),
        image: "ipfs://bafy/1.png".to_string(),
        attributes: vec![
            Attribute { trait_type: "ID".to_string(), value: AttributeValue::Number(0) },
            Attribute {
                trait_type: "big".to_string(),
                value: AttributeValue::Number(u64::MAX),
            },
            Attribute {
                trait_type: "text".to_string(),
                value: AttributeValue::Text("12".to_string()),
            },
            Attribute { trait_type: "none".to_string(), value: AttributeValue::Null },
            Attribute { trait_type: "yes".to_string(), value: AttributeValue::Bool(true) },
            Attribute { trait_type: "no".to_string(), value: AttributeValue::Bool(false) },
        ],
    }
}

#[test]
fn compact_json_of_a_member() {
    let m = NftMetadata::member(7, "bafyFOLDER", "7.png");
    assert_eq!(
        m.to_json(),
        "{\"name\":\"MetaCore #7\",\"description\":\"MetaCore 集合中的一个独特成员。\",\"image\":\"ipfs://bafyFOLDER/7.png\",\"attributes\":[{\"trait_type\":\"ID\",\"value\":7}]}"
    );
}

#[test]
fn pretty_json_of_a_member() {
    let m = NftMetadata::member(7, "bafyFOLDER", "7.png");
    let expected = "{\n  \"name\": \"MetaCore #7\",\n  \"description\": \"MetaCore 集合中的一个独特成员。\",\n  \"image\": \"ipfs://bafyFOLDER/7.png\",\n  \"attributes\": [\n    {\n      \"trait_type\": \"ID\",\n      \"value\": 7\n    }\n  ]\n}";
    assert_eq!(m.to_json_pretty(), expected);
}

#[test]
fn json_of_a_single_token() {
    let m = NftMetadata::single("cat.jpg", "bafy000IMAGE");
    assert_eq!(
        m.to_json(),
        "{\"name\":\"cat\",\"description\":\"这是一个为图片 cat.jpg 动态生成的元数据。\",\"image\":\"ipfs://bafy000IMAGE\",\"attributes\":[{\"trait_type\":\"type\",\"value\":\"single-edition artwork\"}]}"
    );
}

#[test]
fn json_without_attributes() {
    let m = NftMetadata {
        name: "n".to_string(),
        description: "d".to_string(),
        image: "i".to_string(),
        attributes: Vec::new(),
    };
    assert_eq!(m.to_json(), "{\"name\":\"n\",\"description\":\"d\",\"image\":\"i\",\"attributes\":[]}");
    assert_eq!(
        m.to_json_pretty(),
        "{\n  \"name\": \"n\",\n  \"description\": \"d\",\n  \"image\": \"i\",\n  \"attributes\": []\n}"
    );
}

#[test]
fn json_with_two_attributes() {
    let m = NftMetadata {
        name: "n".to_string(),
        description: "d".to_string(),
        image: "i".to_string(),
        attributes: vec![
            Attribute { trait_type: "a".to_string(), value: AttributeValue::Number(1) },
            Attribute { trait_type: "b".to_string(), value: AttributeValue::Null },
        ],
    };
    assert_eq!(
        m.to_json(),
        "{\"name\":\"n\",\"description\":\"d\",\"image\":\"i\",\"attributes\":[{\"trait_type\":\"a\",\"value\":1},{\"trait_type\":\"b\",\"value\":null}]}"
    );
    assert_eq!(
        m.to_json_pretty(),
        "{\n  \"name\": \"n\",\n  \"description\": \"d\",\n  \"image\": \"i\",\n  \"attributes\": [\n    {\n      \"trait_type\": \"a\",\n      \"value\": 1\n    },\n    {\n      \"trait_type\": \"b\",\n      \"value\": null\n    }\n  ]\n}"
    );
}

#[test]
fn strings_are_escaped() {
    let m = NftMetadata {
        name: "q\"b\\c".to_string(),
        description: "\u{8}\t\n\u{c}\r\u{0}\u{1b}\u{1f} \u{7f}/é".to_string(),
        image: "".to_string(),
        attributes: Vec::new(),
    };
    assert_eq!(
        m.to_json(),
        "{\"name\":\"q\\\"b\\\\c\",\"description\":\"\\b\\t\\n\\f\\r\\u0000\\u001b\\u001f \u{7f}/é\",\"image\":\"\",\"attributes\":[]}"
    );
}

#[test]
fn numbers_are_json_integers_not_strings() {
    let m = NftMetadata::member(42, "c", "42.png");
    let value: serde_json::Value = serde_json::from_str(&m.to_json()).unwrap();
    assert!(value["attributes"][0]["value"].is_u64());
    assert_eq!(value["attributes"][0]["value"].as_u64(), Some(42));
    assert!(m.to_json().contains("\"value\":42}"));
}

#[test]
fn keys_stand_in_the_declared_order() {
    let text = sample().to_json();
    let name = text.find("\"name\":").unwrap();
    let description = text.find("\"description\":").unwrap();
    let image = text.find("\"image\":").unwrap();
    let attributes = text.find("\"attributes\":").unwrap();
    assert!(name < description && description < image && image < attributes);
}

#[test]
fn both_forms_are_json_that_holds_the_same_fields() {
    let m = sample();
    for text in [m.to_json(), m.to_json_pretty()] {
        let value: serde_json::Value = serde_json::from_str(&text).unwrap();
        assert_eq!(value["name"].as_str(), Some(m.name.as_str()));
        assert_eq!(value["description"].as_str(), Some(m.description.as_str()));
        assert_eq!(value["image"].as_str(), Some(m.image.as_str()));
        let attributes = value["attributes"].as_array().unwrap();
        assert_eq!(attributes.len(), 6);
        assert_eq!(attributes[0]["trait_type"].as_str(), Some("ID"));
        assert_eq!(attributes[0]["value"].as_u64(), Some(0));
        assert_eq!(attributes[1]["value"].as_u64(), Some(u64::MAX));
        assert_eq!(attributes[2]["value"].as_str(), Some("12"));
        assert!(attributes[3]["value"].is_null());
        assert_eq!(attributes[4]["value"].as_bool(), Some(true));
        assert_eq!(attributes[5]["value"].as_bool(), Some(false));
    }
}

#[test]
fn both_forms_agree_with_serde_json_on_a_value() {
    let m = sample();
    let parsed: serde_json::Value = serde_json::from_str(&m.to_json()).unwrap();
    let pretty: serde_json::Value = serde_json::from_str(&m.to_json_pretty()).unwrap();
    assert_eq!(parsed, pretty);
    let name = serde_json::to_string(&serde_json::Value::String(m.name.clone())).unwrap();
    let description =
        serde_json::to_string(&serde_json::Value::String(m.description.clone())).unwrap();
    assert!(m.to_json().starts_with(&format!("{{\"name\":{},\"description\":{},", name, description)));
    assert!(m
        .to_json_pretty()
        .starts_with(&format!("{{\n  \"name\": {},\n  \"description\": {},\n", name, description)));
}

#[test]
fn round_trip_gives_an_equal_record() {
    let m = sample();
    assert_eq!(NftMetadata::from_json(&m.to_json()), Some(m.clone()));
    assert_eq!(NftMetadata::from_json(&m.to_json_pretty()), Some(m));
}

#[test]
fn round_trip_of_built_records() {
    for m in [
        NftMetadata::single("cat.jpg", "bafy000IMAGE"),
        NftMetadata::single("", ""),
        NftMetadata::single("we\"ird\\.png", "c\ni\td"),
        NftMetadata::member(0, "bafy", "0.png"),
        NftMetadata::member(u64::MAX, "bafy", "18446744073709551615.png"),
    ] {
        assert_eq!(NftMetadata::from_json(&m.to_json()), Some(m.clone()));
        assert_eq!(NftMetadata::from_json(&m.to_json_pretty()), Some(m));
    }
}

#[test]
fn reading_allows_blanks_between_tokens() {
    let text = " \t{ \"name\" : \"n\" ,\r\n \"description\":\"d\", \"image\":\"i\", \"attributes\" : [ { \"trait_type\" : \"a\" , \"value\" : 5 } , {\"trait_type\":\"b\",\"value\":true} ] } \n";
    let m = NftMetadata::from_json(text).unwrap();
    assert_eq!(m.name, "n");
    assert_eq!(m.description, "d");
    assert_eq!(m.image, "i");
    assert_eq!(
        m.attributes,
        vec![
            Attribute { trait_type: "a".to_string(), value: AttributeValue::Number(5) },
            Attribute { trait_type: "b".to_string(), value: AttributeValue::Bool(true) },
        ]
    );
}

#[test]
fn reading_understands_escapes() {
    let text = "{\"name\":\"a\\\"b\\\\c\\/d\\b\\f\\n\\r\\t\\u0041\\u00e9\\u00E9\",\"description\":\"\",\"image\":\"\",\"attributes\":[]}";
    let m = NftMetadata::from_json(text).unwrap();
    assert_eq!(m.name, "a\"b\\c/d\u{8}\u{c}\n\r\tAéé");
}

#[test]
fn reading_refuses_what_is_no_record() {
    let good = "{\"name\":\"n\",\"description\":\"d\",\"image\":\"i\",\"attributes\":[]}";
    assert!(NftMetadata::from_json(good).is_some());
    let bad = [
        "",
        "{}",
        "[]",
        "null",
        "{\"name\":\"n\",\"description\":\"d\",\"image\":\"i\"}",
        "{\"description\":\"d\",\"name\":\"n\",\"image\":\"i\",\"attributes\":[]}",
        "{\"name\":\"n\",\"description\":\"d\",\"image\":\"i\",\"attributes\":[]} x",
        "{\"name\":\"n\",\"description\":\"d\",\"image\":\"i\",\"attributes\":[],}",
        "{\"name\":\"n\",\"description\":\"d\",\"image\":\"i\",\"attributes\":[",
        "{\"name\":\"n\",\"description\":\"d\",\"image\":\"i\",\"attributes\":[,]}",
        "{\"name\":7,\"description\":\"d\",\"image\":\"i\",\"attributes\":[]}",
        "{\"name\":\"n,\"description\":\"d\",\"image\":\"i\",\"attributes\":[]}",
        "{\"name\":\"\n\",\"description\":\"d\",\"image\":\"i\",\"attributes\":[]}",
        "{\"name\":\"\\x\",\"description\":\"d\",\"image\":\"i\",\"attributes\":[]}",
        "{\"name\":\"\\u12\",\"description\":\"d\",\"image\":\"i\",\"attributes\":[]}",
        "{\"name\":\"\\u1234\",\"description\":\"d\",\"image\":\"i\",\"attributes\":[]}",
        "{\"name\":\"n\",\"description\":\"d\",\"image\":\"i\",\"attributes\":[{\"trait_type\":\"a\"}]}",
        "{\"name\":\"n\",\"description\":\"d\",\"image\":\"i\",\"attributes\":[{\"value\":1,\"trait_type\":\"a\"}]}",
        "{\"name\":\"n\",\"description\":\"d\",\"image\":\"i\",\"attributes\":[{\"trait_type\":\"a\",\"value\":01}]}",
        "{\"name\":\"n\",\"description\":\"d\",\"image\":\"i\",\"attributes\":[{\"trait_type\":\"a\",\"value\":-1}]}",
        "{\"name\":\"n\",\"description\":\"d\",\"image\":\"i\",\"attributes\":[{\"trait_type\":\"a\",\"value\":1.5}]}",
        "{\"name\":\"n\",\"description\":\"d\",\"image\":\"i\",\"attributes\":[{\"trait_type\":\"a\",\"value\":18446744073709551616}]}",
        "{\"name\":\"n\",\"description\":\"d\",\"image\":\"i\",\"attributes\":[{\"trait_type\":\"a\",\"value\":nul}]}",
        "{\"name\":\"n\",\"description\":\"d\",\"image\":\"i\",\"attributes\":[{\"trait_type\":\"a\",\"value\":[]}]}",
    ];
    for text in bad {
        assert_eq!(NftMetadata::from_json(text), None, "on {:?}", text);
    }
}

#[test]
fn reading_takes_numbers_up_to_the_largest() {
    let text = "{\"name\":\"n\",\"description\":\"d\",\"image\":\"i\",\"attributes\":[{\"trait_type\":\"a\",\"value\":18446744073709551615},{\"trait_type\":\"b\",\"value\":0}]}";
    let m = NftMetadata::from_json(text).unwrap();
    assert_eq!(m.attributes[0].value, AttributeValue::Number(u64::MAX));
    assert_eq!(m.attributes[1].value, AttributeValue::Number(0));
}
