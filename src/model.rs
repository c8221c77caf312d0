use vstd::prelude::*;

verus! {

/// Attribution recorded for every pictogram unless a record says otherwise.
pub const DEFAULT_LICENSE: &'static str = "CC BY-NC-SA 4.0 (ARASAAC / Gobierno de Aragón; author Sergio Palao)";

/// A pictogram as the Local Store holds it and as callers receive it.
#[derive(Debug, Clone, PartialEq)]
pub struct PictogramDto {
    pub arasaac_id: i32,
    pub keywords: Vec<String>,
    pub category: Option<String>,
    pub categories: Vec<String>,
    pub tags: Vec<String>,
    pub language: String,
    pub image_url: Option<String>,
    pub local_file_path: Option<String>,
    pub width: Option<i32>,
    pub height: Option<i32>,
    pub license: String,
    pub description: Option<String>,
}

/// A bookmark of a user, joined with the cached metadata of its pictogram
/// (absent fields when the pictogram was never cached).
#[derive(Debug, Clone, PartialEq)]
pub struct SavedPictogramDto {
    pub arasaac_id: i32,
    pub label: Option<String>,
    pub used_count: i32,
    pub keywords: Vec<String>,
    pub categories: Vec<String>,
    pub tags: Vec<String>,
    pub language: String,
    pub image_url: Option<String>,
    pub local_file_path: Option<String>,
    pub license: String,
    pub description: Option<String>,
}

/// One keyword entry of an origin record.
#[derive(Debug, Clone, PartialEq)]
pub struct RemoteKeyword {
    pub keyword: Option<String>,
    pub plural: Option<String>,
    pub meaning: Option<String>,
}

/// A pictogram as the origin service describes it.
#[derive(Debug, Clone, PartialEq)]
pub struct RemotePictogram {
    pub id: i32,
    pub keywords: Vec<RemoteKeyword>,
    pub categories: Vec<String>,
    pub tags: Vec<String>,
    pub desc: Option<String>,
}

} // verus!
