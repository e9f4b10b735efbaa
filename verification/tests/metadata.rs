use ipfs_uploader::metadata::{uri_of, Attribute, AttributeValue, NftMetadata};

#[test]
fn single_record_is_named_after_the_stem() {
    let m = NftMetadata::single("cat.jpg", "bafy000IMAGE");
    assert_eq!(m.name, "cat");
    assert_eq!(m.description, "这是一个为图片 cat.jpg 动态生成的元数据。");
    assert_eq!(m.image, "ipfs://bafy000IMAGE");
    assert_eq!(
        m.attributes,
        vec![Attribute {
            trait_type: "type".to_string(),
            value: AttributeValue::Text("single-edition artwork".to_string()),
        }]
    );
}

#[test]
fn single_record_accepts_any_strings() {
    let m = NftMetadata::single("", "");
    assert_eq!(m.name, "");
    assert_eq!(m.image, "ipfs://");
    let m = NftMetadata::single("a \"b\".tar.gz", "x y");
    assert_eq!(m.name, "a \"b\".tar");
    assert_eq!(m.image, "ipfs://x y");
}

#[test]
fn member_record_carries_its_id_as_a_number() {
    let m = NftMetadata::member(10, "bafyFOLDER", "10.png");
    assert_eq!(m.name, "MetaCore #10");
    assert_eq!(m.description, "MetaCore 集合中的一个独特成员。");
    assert_eq!(m.image, "ipfs://bafyFOLDER/10.png");
    assert_eq!(
        m.attributes,
        vec![Attribute { trait_type: "ID".to_string(), value: AttributeValue::Number(10) }]
    );
}

#[test]
fn member_record_is_named_by_the_number_not_by_the_file() {
    let m = NftMetadata::member(7, "bafyFOLDER", "007.png");
    assert_eq!(m.name, "MetaCore #7");
    assert_eq!(m.image, "ipfs://bafyFOLDER/007.png");
}

#[test]
fn address_of_stored_content() {
    assert_eq!(uri_of("bafy000META"), "ipfs://bafy000META");
}

#[test]
fn copies_are_equal() {
    let m = NftMetadata::member(3, "cid", "3.png");
    assert_eq!(m.clone(), m);
    let a = Attribute { trait_type: "t".to_string(), value: AttributeValue::Bool(true) };
    assert_eq!(a.clone(), a);
    assert_eq!(AttributeValue::Null.clone(), AttributeValue::Null);
}
