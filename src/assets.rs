use vstd::prelude::*;

use crate::origin::{build_remote_png_url, build_remote_svg_url, opt_view, raster_url_spec, vector_url_spec};
use crate::text::{
    chars_of, contains, contains_chars, ends_with, int_text, lower_chars, lower_seq, matches_at,
    push_int, push_text, sanitize_segment, slug, starts_with, string_of, uncategorized,
};

verus! {

/// Directory on disk under which the asset tree lives.
pub const STORE_ROOT: &'static str = "backend/assets_seed/pictograms";

/// Prefix of every public asset reference.
pub const PUBLIC_PREFIX: &'static str = "/assets/pictograms/";

/// The image formats the materializer writes.
#[derive(Debug, Clone, Copy, PartialEq, Eq)]
pub enum AssetFormat {
    Vector,
    Raster,
}

pub open spec fn extension(f: AssetFormat) -> Seq<char> {
    match f {
        AssetFormat::Vector => "svg"@,
        AssetFormat::Raster => "png"@,
    }
}

pub open spec fn disk_path_spec(public_path: Seq<char>) -> Option<Seq<char>> {
    if starts_with(public_path, PUBLIC_PREFIX@) {
        Some(STORE_ROOT@ + "/"@ + public_path.subrange(PUBLIC_PREFIX@.len() as int, public_path.len() as int))
    } else {
        None
    }
}

/// The file on disk behind a public asset reference; none for a reference
/// outside the asset tree.
pub fn disk_path_from_public_path(public_path: &str) -> (r: Option<String>)
    ensures
        opt_view(r) == disk_path_spec(public_path@),
{
    let p = chars_of(public_path);
    let prefix = chars_of(PUBLIC_PREFIX);
    if !matches_at(&p, &prefix, 0) {
        return None;
    }
    let mut out: Vec<char> = Vec::new();
    push_text(&mut out, STORE_ROOT);
    push_text(&mut out, "/");
    let ghost base = out@;
    let mut k: usize = prefix.len();
    while k < p.len()
        invariant
            prefix@ == PUBLIC_PREFIX@,
            prefix@.len() <= k <= p@.len(),
            out@ == base + p@.subrange(prefix@.len() as int, k as int),
        decreases p@.len() - k,
    {
        out.push(p[k]);
        proof {
            assert(p@.subrange(prefix@.len() as int, k + 1) =~= p@.subrange(
                prefix@.len() as int,
                k as int,
            ).push(p@[k as int]));
        }
        k = k + 1;
    }
    Some(string_of(out.as_slice()))
}

/// Where each candidate image of one pictogram comes from and goes to.
#[derive(Debug, Clone, PartialEq)]
pub struct AssetPlan {
    pub arasaac_id: i32,
    /// Directory segment made from the category hint.
    pub category_slug: String,
    /// Directory on disk that receives the file.
    pub directory: String,
    pub vector_url: String,
    pub raster_url: String,
    pub vector_public: String,
    pub raster_public: String,
    pub vector_disk: String,
    pub raster_disk: String,
}

pub open spec fn hint_text(category: Option<String>) -> Seq<char> {
    match category {
        Some(c) => c@,
        None => uncategorized(),
    }
}

pub open spec fn public_path_spec(category_slug: Seq<char>, id: int, f: AssetFormat) -> Seq<char> {
    PUBLIC_PREFIX@ + category_slug + "/"@ + int_text(id) + "."@ + extension(f)
}

pub open spec fn disk_file_spec(category_slug: Seq<char>, id: int, f: AssetFormat) -> Seq<char> {
    STORE_ROOT@ + "/"@ + category_slug + "/"@ + int_text(id) + "."@ + extension(f)
}

pub open spec fn is_plan_for(plan: AssetPlan, id: int, category: Option<String>) -> bool {
    let s = slug(hint_text(category));
    &&& plan.arasaac_id == id
    &&& plan.category_slug@ == s
    &&& plan.directory@ == STORE_ROOT@ + "/"@ + s
    &&& plan.vector_url@ == vector_url_spec(id)
    &&& plan.raster_url@ == raster_url_spec(id)
    &&& plan.vector_public@ == public_path_spec(s, id, AssetFormat::Vector)
    &&& plan.raster_public@ == public_path_spec(s, id, AssetFormat::Raster)
    &&& plan.vector_disk@ == disk_file_spec(s, id, AssetFormat::Vector)
    &&& plan.raster_disk@ == disk_file_spec(s, id, AssetFormat::Raster)
}

fn asset_path(root: &str, sep: &str, category_slug: &str, id: i32, ext: &str) -> (r: String)
    ensures
        r@ == root@ + sep@ + category_slug@ + "/"@ + int_text(id as int) + "."@ + ext@,
{
    let mut out: Vec<char> = Vec::new();
    push_text(&mut out, root);
    push_text(&mut out, sep);
    push_text(&mut out, category_slug);
    push_text(&mut out, "/");
    push_int(&mut out, id as i64);
    push_text(&mut out, ".");
    push_text(&mut out, ext);
    string_of(out.as_slice())
}

/// Derives every address and path of one pictogram's asset from its id and
/// category hint (`uncategorized` when there is none).
pub fn plan_materialization(arasaac_id: i32, category: &Option<String>) -> (r: AssetPlan)
    ensures
        is_plan_for(r, arasaac_id as int, *category),
{
    let category_slug = match category {
        Some(c) => sanitize_segment(c.as_str()),
        None => sanitize_segment("uncategorized"),
    };
    proof {
        if category is None {
            assert("uncategorized"@ == uncategorized()) by {
                reveal_strlit("uncategorized");
            }
        }
    }
    let mut dir: Vec<char> = Vec::new();
    push_text(&mut dir, STORE_ROOT);
    push_text(&mut dir, "/");
    push_text(&mut dir, category_slug.as_str());
    let slug_str = category_slug.as_str();
    let vector_public = asset_path("", PUBLIC_PREFIX, slug_str, arasaac_id, "svg");
    let raster_public = asset_path("", PUBLIC_PREFIX, slug_str, arasaac_id, "png");
    let vector_disk = asset_path(STORE_ROOT, "/", slug_str, arasaac_id, "svg");
    let raster_disk = asset_path(STORE_ROOT, "/", slug_str, arasaac_id, "png");
    proof {
        assert(""@ =~= Seq::<char>::empty()) by {
            reveal_strlit("");
        }
        assert(vector_public@ =~= public_path_spec(category_slug@, arasaac_id as int, AssetFormat::Vector));
        assert(raster_public@ =~= public_path_spec(category_slug@, arasaac_id as int, AssetFormat::Raster));
    }
    AssetPlan {
        arasaac_id,
        category_slug: string_of_str(slug_str),
        directory: string_of(dir.as_slice()),
        vector_url: build_remote_svg_url(arasaac_id),
        raster_url: build_remote_png_url(arasaac_id),
        vector_public,
        raster_public,
        vector_disk,
        raster_disk,
    }
}

fn string_of_str(s: &str) -> (r: String)
    ensures
        r@ == s@,
{
    String::from_str(s)
}

/// Whether a response content type announces a vector image: it mentions
/// `svg` or `xml`, in any ASCII case.
pub open spec fn is_vector_content_type(content_type: Seq<char>) -> bool {
    contains(lower_seq(content_type), "svg"@) || contains(lower_seq(content_type), "xml"@)
}

pub fn accepts_vector(content_type: &str) -> (r: bool)
    ensures
        r == is_vector_content_type(content_type@),
{
    let t = lower_chars(&chars_of(content_type));
    contains_chars(&t, &chars_of("svg")) || contains_chars(&t, &chars_of("xml"))
}

/// The next file a materialization downloads: the vector file first; the
/// raster file when the vector one was tried and not written; nothing once
/// a file was written or both were tried.
pub fn next_download(vector_tried: bool, vector_written: bool, raster_tried: bool) -> (r: Option<AssetFormat>)
    ensures
        r == if !vector_tried {
            Some(AssetFormat::Vector)
        } else if !vector_written && !raster_tried {
            Some(AssetFormat::Raster)
        } else {
            None::<AssetFormat>
        },
{
    if !vector_tried {
        Some(AssetFormat::Vector)
    } else if !vector_written && !raster_tried {
        Some(AssetFormat::Raster)
    } else {
        None
    }
}

/// What one materialization reports, given which file it wrote: the vector
/// file when accepted, else the raster file; with neither written, the raster
/// address alone and no local reference.
pub open spec fn materialized_spec(
    plan: AssetPlan,
    vector_written: bool,
    raster_written: bool,
) -> (Option<Seq<char>>, Option<Seq<char>>) {
    if vector_written {
        (Some(plan.vector_url@), Some(plan.vector_public@))
    } else if raster_written {
        (Some(plan.raster_url@), Some(plan.raster_public@))
    } else {
        (Some(plan.raster_url@), None)
    }
}

/// The `(image address, local reference)` pair of a materialization.
pub fn materialized_reference(plan: &AssetPlan, vector_written: bool, raster_written: bool) -> (r: (
    Option<String>,
    Option<String>,
))
    ensures
        (opt_view(r.0), opt_view(r.1)) == materialized_spec(*plan, vector_written, raster_written),
{
    if vector_written {
        (Some(plan.vector_url.clone()), Some(plan.vector_public.clone()))
    } else if raster_written {
        (Some(plan.raster_url.clone()), Some(plan.raster_public.clone()))
    } else {
        (Some(plan.raster_url.clone()), None)
    }
}

/// Where a seeded card's asset must be written, and whether it is the vector
/// file: only for references inside the asset tree.
pub open spec fn seed_target_spec(public_path: Seq<char>) -> Option<(Seq<char>, bool)> {
    match disk_path_spec(public_path) {
        Some(d) => Some((d, ends_with(lower_seq(public_path), ".svg"@))),
        None => None,
    }
}

pub fn seed_target(public_path: &str) -> (r: Option<(String, bool)>)
    ensures
        match r {
            Some((d, v)) => seed_target_spec(public_path@) == Some((d@, v)),
            None => seed_target_spec(public_path@) is None,
        },
{
    match disk_path_from_public_path(public_path) {
        Some(d) => {
            let l = lower_chars(&chars_of(public_path));
            let suffix = chars_of(".svg");
            let vector = suffix.len() <= l.len() && matches_at(&l, &suffix, l.len() - suffix.len());
            Some((d, vector))
        },
        None => None,
    }
}

} // verus!
