use vstd::prelude::*;

use crate::model::{PictogramDto, SavedPictogramDto, DEFAULT_LICENSE};
use crate::tokens::{split_tokens, stored_tokens, views};

verus! {

/// A row of the Local Store's pictogram table, token lists kept as `||` texts.
#[derive(Debug, Clone, PartialEq)]
pub struct PictogramRow {
    pub arasaac_id: i32,
    pub keywords_text: String,
    pub category: Option<String>,
    pub categories_text: Option<String>,
    pub tags_text: Option<String>,
    pub language: String,
    pub image_url: Option<String>,
    pub local_file_path: Option<String>,
    pub width: Option<i32>,
    pub height: Option<i32>,
    pub license: String,
    pub description: Option<String>,
}

/// A bookmark row joined with its pictogram's row, whose fields are absent
/// when the pictogram was never cached.
#[derive(Debug, Clone, PartialEq)]
pub struct SavedRow {
    pub arasaac_id: i32,
    pub label: Option<String>,
    pub used_count: i32,
    pub keywords_text: Option<String>,
    pub categories_text: Option<String>,
    pub tags_text: Option<String>,
    pub language: Option<String>,
    pub image_url: Option<String>,
    pub local_file_path: Option<String>,
    pub license: Option<String>,
    pub description: Option<String>,
}

pub open spec fn text_or_empty(o: Option<String>) -> Seq<char> {
    match o {
        Some(s) => s@,
        None => Seq::empty(),
    }
}

fn tokens_of_opt(o: &Option<String>) -> (r: Vec<String>)
    ensures
        views(r@) == stored_tokens(text_or_empty(*o)),
{
    match o {
        Some(s) => split_tokens(s.as_str()),
        None => {
            let v = split_tokens("");
            proof {
                reveal_strlit("");
                assert(""@ =~= Seq::<char>::empty());
            }
            v
        },
    }
}

fn take_or(o: Option<String>, default: &str) -> (r: String)
    ensures
        r@ == match o {
            Some(s) => s@,
            None => default@,
        },
{
    match o {
        Some(s) => s,
        None => String::from_str(default),
    }
}

/// The record that a store row describes, token lists split out of their texts.
pub fn row_to_dto(row: PictogramRow) -> (r: PictogramDto)
    ensures
        r.arasaac_id == row.arasaac_id,
        views(r.keywords@) == stored_tokens(row.keywords_text@),
        r.category == row.category,
        views(r.categories@) == stored_tokens(text_or_empty(row.categories_text)),
        views(r.tags@) == stored_tokens(text_or_empty(row.tags_text)),
        r.language == row.language,
        r.image_url == row.image_url,
        r.local_file_path == row.local_file_path,
        r.width == row.width,
        r.height == row.height,
        r.license == row.license,
        r.description == row.description,
{
    let keywords = split_tokens(row.keywords_text.as_str());
    let categories = tokens_of_opt(&row.categories_text);
    let tags = tokens_of_opt(&row.tags_text);
    PictogramDto {
        arasaac_id: row.arasaac_id,
        keywords,
        category: row.category,
        categories,
        tags,
        language: row.language,
        image_url: row.image_url,
        local_file_path: row.local_file_path,
        width: row.width,
        height: row.height,
        license: row.license,
        description: row.description,
    }
}

/// A bookmark as callers receive it; language `en` and the default license
/// stand in for a pictogram that was never cached.
pub fn saved_row_to_dto(row: SavedRow) -> (r: SavedPictogramDto)
    ensures
        r.arasaac_id == row.arasaac_id,
        r.label == row.label,
        r.used_count == row.used_count,
        views(r.keywords@) == stored_tokens(text_or_empty(row.keywords_text)),
        views(r.categories@) == stored_tokens(text_or_empty(row.categories_text)),
        views(r.tags@) == stored_tokens(text_or_empty(row.tags_text)),
        r.language@ == match row.language {
            Some(l) => l@,
            None => "en"@,
        },
        r.image_url == row.image_url,
        r.local_file_path == row.local_file_path,
        r.license@ == match row.license {
            Some(l) => l@,
            None => DEFAULT_LICENSE@,
        },
        r.description == row.description,
{
    let keywords = tokens_of_opt(&row.keywords_text);
    let categories = tokens_of_opt(&row.categories_text);
    let tags = tokens_of_opt(&row.tags_text);
    SavedPictogramDto {
        arasaac_id: row.arasaac_id,
        label: row.label,
        used_count: row.used_count,
        keywords,
        categories,
        tags,
        language: take_or(row.language, "en"),
        image_url: row.image_url,
        local_file_path: row.local_file_path,
        license: take_or(row.license, DEFAULT_LICENSE),
        description: row.description,
    }
}

} // verus!
