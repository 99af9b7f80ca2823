//! What the host hands to the request handlers and takes back from them.

use vstd::prelude::*;
use num_bigint::BigInt;

verus! {

/// The request for the metadata of a block.
#[derive(Debug)]
pub struct ArgsMetadata {
    pub id: BigInt,
}

/// The request for the image of a block.
#[derive(Debug)]
pub struct ArgsImage {
    pub id: BigInt,
}

/// The request for the animation of a block.
#[derive(Debug)]
pub struct ArgsAnimation {
    pub id: BigInt,
}

/// The request for the battle of two blocks.
#[derive(Debug)]
pub struct ArgsBattle {
    pub challenger_id: BigInt,
    pub defender_id: BigInt,
}

/// A file in answer to a request.
#[derive(Debug)]
pub struct WrapLinkFile {
    pub _wrap_link_type: String,
    pub content: Vec<u8>,
    pub content_type: String,
}

/// One attribute of a block, as text.
#[derive(Debug)]
pub struct MetadataStringAttribute {
    pub trait_type: String,
    pub value: String,
}

/// What is known of a block.
#[derive(Debug)]
pub struct Metadata {
    pub name: String,
    pub description: String,
    pub external_url: String,
    pub image: String,
    pub animation_url: String,
    pub attributes: Vec<MetadataStringAttribute>,
}

} // verus!
