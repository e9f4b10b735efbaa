//! Token metadata records and the two ways of building one.

use crate::decimal::{decimal, render_u64};
use crate::paths::{file_stem, file_stem_spec};
use crate::text::{glue, glue3};
use vstd::prelude::*;

verus! {

/// What an attribute's value is, as mathematics.
pub enum ValueView {
    Null,
    Bool(bool),
    Number(u64),
    Text(Seq<char>),
}

/// An attribute as mathematics.
pub struct AttributeView {
    pub trait_type: Seq<char>,
    pub value: ValueView,
}

/// A metadata record as mathematics.
pub struct MetadataView {
    pub name: Seq<char>,
    pub description: Seq<char>,
    pub image: Seq<char>,
    pub attributes: Seq<AttributeView>,
}

/// A scalar that an attribute can carry: nothing, a truth value, an unsigned
/// integer or a text.
#[derive(Debug, PartialEq, Eq)]
pub enum AttributeValue {
    Null,
    Bool(bool),
    Number(u64),
    Text(String),
}

/// One named trait of a token.
#[derive(Debug, PartialEq, Eq)]
pub struct Attribute {
    pub trait_type: String,
    pub value: AttributeValue,
}

/// The metadata of one token. The attributes keep the order in which they
/// were put in.
#[derive(Debug, PartialEq, Eq)]
pub struct NftMetadata {
    pub name: String,
    pub description: String,
    pub image: String,
    pub attributes: Vec<Attribute>,
}

impl View for AttributeValue {
    type V = ValueView;

    open spec fn view(&self) -> ValueView {
        match self {
            AttributeValue::Null => ValueView::Null,
            AttributeValue::Bool(b) => ValueView::Bool(*b),
            AttributeValue::Number(n) => ValueView::Number(*n),
            AttributeValue::Text(t) => ValueView::Text(t@),
        }
    }
}

impl View for Attribute {
    type V = AttributeView;

    open spec fn view(&self) -> AttributeView {
        AttributeView { trait_type: self.trait_type@, value: self.value@ }
    }
}

impl View for NftMetadata {
    type V = MetadataView;

    open spec fn view(&self) -> MetadataView {
        MetadataView {
            name: self.name@,
            description: self.description@,
            image: self.image@,
            attributes: attribute_views(self.attributes@),
        }
    }
}

/// The attributes of a list, each as mathematics.
pub open spec fn attribute_views(attributes: Seq<Attribute>) -> Seq<AttributeView> {
    attributes.map_values(|a: Attribute| a@)
}

impl Clone for AttributeValue {
    fn clone(&self) -> (out: Self)
        ensures
            out@ == self@,
    {
        match self {
            AttributeValue::Null => AttributeValue::Null,
            AttributeValue::Bool(b) => AttributeValue::Bool(*b),
            AttributeValue::Number(n) => AttributeValue::Number(*n),
            AttributeValue::Text(t) => AttributeValue::Text(t.clone()),
        }
    }
}

impl Clone for Attribute {
    fn clone(&self) -> (out: Self)
        ensures
            out@ == self@,
    {
        Attribute { trait_type: self.trait_type.clone(), value: self.value.clone() }
    }
}

impl Clone for NftMetadata {
    fn clone(&self) -> (out: Self)
        ensures
            out@ == self@,
    {
        let mut attributes: Vec<Attribute> = Vec::new();
        let mut i: usize = 0;
        while i < self.attributes.len()
            invariant
                i <= self.attributes@.len(),
                attributes@.len() == i,
                forall|j: int| 0 <= j < i ==> (#[trigger] attributes@[j])@ == self.attributes@[j]@,
            decreases self.attributes@.len() - i,
        {
            attributes.push(self.attributes[i].clone());
            i += 1;
        }
        let out = NftMetadata {
            name: self.name.clone(),
            description: self.description.clone(),
            image: self.image.clone(),
            attributes,
        };
        assert(out@.attributes =~= self@.attributes);
        out
    }
}

/// The address of stored content: the scheme `ipfs://` and the identifier.
pub open spec fn content_uri(cid: Seq<char>) -> Seq<char> {
    "ipfs://"@ + cid
}

/// The address of a file inside a stored directory.
pub open spec fn member_uri(folder_cid: Seq<char>, file_name: Seq<char>) -> Seq<char> {
    "ipfs://"@ + folder_cid + "/"@ + file_name
}

/// The description of a single token, which names the image file.
pub open spec fn single_description(file_name: Seq<char>) -> Seq<char> {
    "这是一个为图片 "@ + file_name + " 动态生成的元数据。"@
}

/// The record of a token that stands alone.
pub open spec fn single_metadata(file_name: Seq<char>, image_cid: Seq<char>) -> MetadataView {
    MetadataView {
        name: file_stem_spec(file_name),
        description: single_description(file_name),
        image: content_uri(image_cid),
        attributes: seq![
            AttributeView {
                trait_type: "type"@,
                value: ValueView::Text("single-edition artwork"@),
            },
        ],
    }
}

/// The name of the member of the collection with the given id.
pub open spec fn member_name(token_id: u64) -> Seq<char> {
    "MetaCore #"@ + decimal(token_id as nat)
}

/// The record of one member of a collection.
pub open spec fn member_metadata(
    token_id: u64,
    folder_cid: Seq<char>,
    file_name: Seq<char>,
) -> MetadataView {
    MetadataView {
        name: member_name(token_id),
        description: "MetaCore 集合中的一个独特成员。"@,
        image: member_uri(folder_cid, file_name),
        attributes: seq![
            AttributeView { trait_type: "ID"@, value: ValueView::Number(token_id) },
        ],
    }
}

/// The address of stored content, as a string.
pub fn uri_of(cid: &str) -> (out: String)
    ensures
        out@ == content_uri(cid@),
{
    glue("ipfs://", cid)
}

impl NftMetadata {
    /// Builds the record of a token that stands alone: it is named after the
    /// image file's stem, its description names the file, its image is the
    /// stored content, and it carries the one attribute of a single edition.
    /// Any file name and any identifier are accepted.
    pub fn single(file_name: &str, image_cid: &str) -> (out: NftMetadata)
        ensures
            out@ == single_metadata(file_name@, image_cid@),
    {
        let mut attributes: Vec<Attribute> = Vec::new();
        attributes.push(
            Attribute {
                trait_type: "type".to_owned(),
                value: AttributeValue::Text("single-edition artwork".to_owned()),
            },
        );
        let out = NftMetadata {
            name: file_stem(file_name),
            description: glue3("这是一个为图片 ", file_name, " 动态生成的元数据。"),
            image: uri_of(image_cid),
            attributes,
        };
        assert(out@.attributes =~= single_metadata(file_name@, image_cid@).attributes);
        out
    }

    /// Builds the record of one member of a collection: it is named by its
    /// id, its image is the file inside the stored image directory, and it
    /// carries its id as a number.
    pub fn member(token_id: u64, folder_cid: &str, file_name: &str) -> (out: NftMetadata)
        ensures
            out@ == member_metadata(token_id, folder_cid@, file_name@),
    {
        let mut attributes: Vec<Attribute> = Vec::new();
        attributes.push(
            Attribute { trait_type: "ID".to_owned(), value: AttributeValue::Number(token_id) },
        );
        let id = render_u64(token_id);
        let mut image = uri_of(folder_cid);
        image = glue3(image.as_str(), "/", file_name);
        let out = NftMetadata {
            name: glue("MetaCore #", id.as_str()),
            description: "MetaCore 集合中的一个独特成员。".to_owned(),
            image,
            attributes,
        };
        assert(out@.attributes =~= member_metadata(token_id, folder_cid@, file_name@).attributes);
        out
    }
}

} // verus!
