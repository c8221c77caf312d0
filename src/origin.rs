use vstd::prelude::*;

use crate::error::{internal, AppError};
use crate::model::{PictogramDto, RemoteKeyword, RemotePictogram, DEFAULT_LICENSE};
use crate::text::{insert_sorted, strictly_sorted, 
    chars_of, int_text, decimal, push_decimal, push_int, push_text, string_of, trim_chars,
    trim_ws,
};
use crate::tokens::views;

verus! {

pub const API_BASE: &'static str = "https://api.arasaac.org/v1";

pub const STATIC_BASE: &'static str = "https://static.arasaac.org/pictograms";

// ---------------------------------------------------------------------------
// Response status
// ---------------------------------------------------------------------------

/// What an origin response status means to the engine.
#[derive(Debug, Clone, Copy, PartialEq, Eq)]
pub enum OriginStatus {
    /// A success status: the body holds the items.
    Success,
    /// The origin's way of saying that nothing matched: an empty list.
    NoMatches,
    /// The origin throttled the request.
    RateLimited,
    /// Any other status.
    Failed,
}

pub open spec fn status_kind(code: u16) -> OriginStatus {
    if code == 429 {
        OriginStatus::RateLimited
    } else if code == 404 {
        OriginStatus::NoMatches
    } else if 200 <= code <= 299 {
        OriginStatus::Success
    } else {
        OriginStatus::Failed
    }
}

pub fn classify_status(code: u16) -> (r: OriginStatus)
    ensures
        r == status_kind(code),
{
    if code == 429 {
        OriginStatus::RateLimited
    } else if code == 404 {
        OriginStatus::NoMatches
    } else if 200 <= code && code <= 299 {
        OriginStatus::Success
    } else {
        OriginStatus::Failed
    }
}

/// The result of one origin call that returns a list, from its status and its
/// decoded body (`None` when the body could not be decoded): the items on
/// success, an empty list when nothing matched, `RateLimited` when throttled,
/// `Internal` otherwise.
pub fn origin_items<T>(status: u16, body: Option<Vec<T>>) -> (r: Result<Vec<T>, AppError>)
    ensures
        status_kind(status) == OriginStatus::RateLimited ==> r matches Err(AppError::RateLimited),
        status_kind(status) == OriginStatus::NoMatches ==> (r matches Ok(v) && v@.len() == 0),
        status_kind(status) == OriginStatus::Failed ==> r matches Err(AppError::Internal(_)),
        status_kind(status) == OriginStatus::Success ==> match body {
            Some(v) => r == Ok::<Vec<T>, AppError>(v),
            None => r matches Err(AppError::Internal(_)),
        },
{
    match classify_status(status) {
        OriginStatus::RateLimited => Err(AppError::RateLimited),
        OriginStatus::NoMatches => Ok(Vec::new()),
        OriginStatus::Failed => Err(internal("origin request failed")),
        OriginStatus::Success => match body {
            Some(v) => Ok(v),
            None => Err(internal("origin response could not be decoded")),
        },
    }
}

/// The record that a fetch by id answers with: the last item of the list,
/// `NotFound` when the list is empty.
pub fn pick_by_id(list: Vec<RemotePictogram>) -> (r: Result<RemotePictogram, AppError>)
    ensures
        list@.len() == 0 ==> r matches Err(AppError::NotFound),
        list@.len() > 0 ==> r == Ok::<RemotePictogram, AppError>(list@.last()),
{
    let mut list = list;
    match list.pop() {
        Some(p) => Ok(p),
        None => Err(AppError::NotFound),
    }
}

/// Whether the broader search endpoint must be asked: the best-match one found nothing.
pub fn needs_broad_search(best: &Vec<RemotePictogram>) -> (r: bool)
    ensures
        r == (best@.len() == 0),
{
    best.len() == 0
}

// ---------------------------------------------------------------------------
// Addresses
// ---------------------------------------------------------------------------

/// What `urlencoding::encode` makes of a text: every byte percent-encoded but
/// ASCII letters, digits, `-`, `_`, `.` and `~`.
pub uninterp spec fn url_encoded(s: Seq<char>) -> Seq<char>;

/// Relies on `urlencoding::encode`: percent-encodes the UTF-8 bytes of `s`,
/// keeping ASCII alphanumerics and `-._~`; the empty text stays empty.
#[verifier::external_body]
fn encode_component(s: &str) -> (r: String)
    ensures
        r@ == url_encoded(s@),
        s@.len() == 0 ==> r@.len() == 0,
{
    urlencoding::encode(s).into_owned()
}

pub open spec fn search_url_spec(language: Seq<char>, query: Seq<char>, best: bool) -> Seq<char> {
    API_BASE@ + "/pictograms/"@ + language + (if best {
        "/bestsearch/"@
    } else {
        "/search/"@
    }) + url_encoded(query)
}

/// The address of a keyword search: the best-match endpoint when `best`,
/// else the broader one.
pub fn search_url(language: &str, query: &str, best: bool) -> (r: String)
    ensures
        r@ == search_url_spec(language@, query@, best),
{
    let mut out: Vec<char> = Vec::new();
    push_text(&mut out, API_BASE);
    push_text(&mut out, "/pictograms/");
    push_text(&mut out, language);
    if best {
        push_text(&mut out, "/bestsearch/");
    } else {
        push_text(&mut out, "/search/");
    }
    let enc = encode_component(query);
    push_text(&mut out, enc.as_str());
    string_of(out.as_slice())
}

pub open spec fn pictogram_url_spec(language: Seq<char>, id: int) -> Seq<char> {
    API_BASE@ + "/pictograms/"@ + language + "/"@ + int_text(id)
}

/// The address of one pictogram's metadata.
pub fn pictogram_url(language: &str, id: i32) -> (r: String)
    ensures
        r@ == pictogram_url_spec(language@, id as int),
{
    let mut out: Vec<char> = Vec::new();
    push_text(&mut out, API_BASE);
    push_text(&mut out, "/pictograms/");
    push_text(&mut out, language);
    push_text(&mut out, "/");
    push_int(&mut out, id as i64);
    string_of(out.as_slice())
}

pub open spec fn newest_url_spec(language: Seq<char>, n: nat) -> Seq<char> {
    API_BASE@ + "/pictograms/"@ + language + "/new/"@ + decimal(n)
}

/// The address of the `n` newest pictograms.
pub fn newest_url(language: &str, n: u32) -> (r: String)
    ensures
        r@ == newest_url_spec(language@, n as nat),
{
    let mut out: Vec<char> = Vec::new();
    push_text(&mut out, API_BASE);
    push_text(&mut out, "/pictograms/");
    push_text(&mut out, language);
    push_text(&mut out, "/new/");
    push_decimal(&mut out, n as u64);
    string_of(out.as_slice())
}

pub open spec fn keywords_url_spec(language: Seq<char>) -> Seq<char> {
    API_BASE@ + "/keywords/"@ + language
}

/// The address of the keyword list of a language.
pub fn keywords_url(language: &str) -> (r: String)
    ensures
        r@ == keywords_url_spec(language@),
{
    let mut out: Vec<char> = Vec::new();
    push_text(&mut out, API_BASE);
    push_text(&mut out, "/keywords/");
    push_text(&mut out, language);
    string_of(out.as_slice())
}

pub open spec fn raster_url_spec(id: int) -> Seq<char> {
    STATIC_BASE@ + "/"@ + int_text(id) + "/"@ + int_text(id) + "_500.png"@
}

pub open spec fn vector_url_spec(id: int) -> Seq<char> {
    STATIC_BASE@ + "/"@ + int_text(id) + "/"@ + int_text(id) + ".svg"@
}

/// The address of a pictogram's raster image.
pub fn build_remote_png_url(arasaac_id: i32) -> (r: String)
    ensures
        r@ == raster_url_spec(arasaac_id as int),
{
    let mut out: Vec<char> = Vec::new();
    push_text(&mut out, STATIC_BASE);
    push_text(&mut out, "/");
    push_int(&mut out, arasaac_id as i64);
    push_text(&mut out, "/");
    push_int(&mut out, arasaac_id as i64);
    push_text(&mut out, "_500.png");
    string_of(out.as_slice())
}

/// The address of a pictogram's vector image.
pub fn build_remote_svg_url(arasaac_id: i32) -> (r: String)
    ensures
        r@ == vector_url_spec(arasaac_id as int),
{
    let mut out: Vec<char> = Vec::new();
    push_text(&mut out, STATIC_BASE);
    push_text(&mut out, "/");
    push_int(&mut out, arasaac_id as i64);
    push_text(&mut out, "/");
    push_int(&mut out, arasaac_id as i64);
    push_text(&mut out, ".svg");
    string_of(out.as_slice())
}

// ---------------------------------------------------------------------------
// Mapping origin records
// ---------------------------------------------------------------------------

pub open spec fn opt_view(o: Option<String>) -> Option<Seq<char>> {
    match o {
        Some(s) => Some(s@),
        None => None,
    }
}

/// A present text, trimmed, as a token; nothing when absent or blank.
pub open spec fn opt_token(o: Option<String>) -> Seq<Seq<char>> {
    match o {
        Some(s) => if trim_ws(s@).len() > 0 {
            seq![trim_ws(s@)]
        } else {
            seq![]
        },
        None => seq![],
    }
}

pub open spec fn entry_tokens(k: RemoteKeyword) -> Seq<Seq<char>> {
    opt_token(k.keyword) + opt_token(k.plural) + opt_token(k.meaning)
}

/// The keyword tokens of an origin record: keyword, plural and meaning of
/// each entry in turn, trimmed, blanks left out.
pub open spec fn keyword_tokens(ks: Seq<RemoteKeyword>) -> Seq<Seq<char>>
    decreases ks.len(),
{
    if ks.len() == 0 {
        seq![]
    } else {
        keyword_tokens(ks.drop_last()) + entry_tokens(ks.last())
    }
}

fn push_opt_token(out: &mut Vec<String>, o: &Option<String>)
    ensures
        views(final(out)@) == views(old(out)@) + opt_token(*o),
{
    match o {
        Some(s) => {
            let t = trim_chars(&chars_of(s.as_str()), false);
            if t.len() > 0 {
                let ghost before = out@;
                out.push(string_of(t.as_slice()));
                assert(views(out@) =~= views(before) + seq![t@]);
            } else {
                assert(views(out@) =~= views(out@) + Seq::<Seq<char>>::empty());
            }
        },
        None => {
            assert(views(out@) =~= views(out@) + Seq::<Seq<char>>::empty());
        },
    }
}

/// The keyword tokens as a set: sorted by `text_lt`, no repeats.
pub open spec fn is_keyword_set(r: Seq<Seq<char>>, ks: Seq<RemoteKeyword>) -> bool {
    &&& strictly_sorted(r)
    &&& forall|x: Seq<char>| r.contains(x) <==> keyword_tokens(ks).contains(x)
}

/// The keyword tokens of an origin record, sorted, each once.
pub fn extract_keyword_tokens(p: &RemotePictogram) -> (r: Vec<String>)
    ensures
        is_keyword_set(views(r@), p.keywords@),
{
    let all = keyword_token_list(p);
    let ghost a = views(all@);
    let mut out: Vec<String> = Vec::new();
    let mut i: usize = 0;
    while i < all.len()
        invariant
            a == views(all@),
            a == keyword_tokens(p.keywords@),
            i <= all@.len(),
            strictly_sorted(views(out@)),
            forall|x: Seq<char>|
                views(out@).contains(x) <==> a.subrange(0, i as int).contains(x),
        decreases all@.len() - i,
    {
        insert_sorted(&mut out, all[i].clone());
        proof {
            let pre = a.subrange(0, i as int);
            assert(a.subrange(0, i + 1) =~= pre.push(a[i as int]));
            assert forall|x: Seq<char>| pre.push(a[i as int]).contains(x) <==> (pre.contains(x)
                || x == a[i as int]) by {
                if pre.push(a[i as int]).contains(x) {
                    let k = choose|k: int| 0 <= k < pre.len() + 1 && pre.push(a[i as int])[k] == x;
                    if k < pre.len() {
                        assert(pre[k] == x);
                    }
                }
                if pre.contains(x) {
                    let k = choose|k: int| 0 <= k < pre.len() && pre[k] == x;
                    assert(pre.push(a[i as int])[k] == x);
                }
                if x == a[i as int] {
                    assert(pre.push(a[i as int])[pre.len() as int] == x);
                }
            }
        }
        i = i + 1;
    }
    assert(a.subrange(0, all@.len() as int) =~= a);
    out
}

/// The keyword tokens of an origin record in the order the record gives them.
fn keyword_token_list(p: &RemotePictogram) -> (r: Vec<String>)
    ensures
        views(r@) == keyword_tokens(p.keywords@),
{
    let mut out: Vec<String> = Vec::new();
    let mut i: usize = 0;
    while i < p.keywords.len()
        invariant
            i <= p.keywords@.len(),
            views(out@) == keyword_tokens(p.keywords@.subrange(0, i as int)),
        decreases p.keywords@.len() - i,
    {
        let k = &p.keywords[i];
        let ghost before = views(out@);
        push_opt_token(&mut out, &k.keyword);
        push_opt_token(&mut out, &k.plural);
        push_opt_token(&mut out, &k.meaning);
        proof {
            let ks = p.keywords@.subrange(0, i + 1);
            assert(ks.drop_last() =~= p.keywords@.subrange(0, i as int));
            assert(views(out@) =~= before + entry_tokens(*k));
        }
        i = i + 1;
    }
    assert(p.keywords@.subrange(0, p.keywords@.len() as int) =~= p.keywords@);
    out
}

pub fn copy_strings(v: &Vec<String>) -> (r: Vec<String>)
    ensures
        views(r@) == views(v@),
{
    let mut out: Vec<String> = Vec::new();
    let mut i: usize = 0;
    while i < v.len()
        invariant
            i <= v@.len(),
            views(out@) == views(v@.subrange(0, i as int)),
        decreases v@.len() - i,
    {
        let ghost before = out@;
        out.push(v[i].clone());
        proof {
            assert(views(out@) =~= views(before) + seq![v@[i as int]@]);
            assert(views(v@.subrange(0, i + 1)) =~= views(v@.subrange(0, i as int)) + seq![
                v@[i as int]@,
            ]);
        }
        i = i + 1;
    }
    assert(v@.subrange(0, v@.len() as int) =~= v@);
    out
}

pub fn copy_opt(o: &Option<String>) -> (r: Option<String>)
    ensures
        opt_view(r) == opt_view(*o),
{
    match o {
        Some(s) => Some(s.clone()),
        None => None,
    }
}

pub open spec fn first_view(v: Seq<Seq<char>>) -> Option<Seq<char>> {
    if v.len() > 0 {
        Some(v[0])
    } else {
        None
    }
}

pub fn first_string(v: &Vec<String>) -> (r: Option<String>)
    ensures
        opt_view(r) == first_view(views(v@)),
{
    if v.len() > 0 {
        Some(v[0].clone())
    } else {
        None
    }
}

/// The record built from origin metadata, with the given image address and
/// local asset reference; size unset, default license.
pub open spec fn is_record_of(
    r: PictogramDto,
    language: Seq<char>,
    p: RemotePictogram,
    image_url: Option<Seq<char>>,
    local_file_path: Option<Seq<char>>,
) -> bool {
    &&& r.arasaac_id == p.id
    &&& is_keyword_set(views(r.keywords@), p.keywords@)
    &&& opt_view(r.category) == first_view(views(p.categories@))
    &&& views(r.categories@) == views(p.categories@)
    &&& views(r.tags@) == views(p.tags@)
    &&& r.language@ == language
    &&& opt_view(r.image_url) == image_url
    &&& opt_view(r.local_file_path) == local_file_path
    &&& r.width is None
    &&& r.height is None
    &&& r.license@ == DEFAULT_LICENSE@
    &&& opt_view(r.description) == opt_view(p.desc)
}

/// The record for origin metadata with the given image address and asset reference.
pub fn origin_record(
    language: &str,
    p: &RemotePictogram,
    image_url: Option<String>,
    local_file_path: Option<String>,
) -> (r: PictogramDto)
    ensures
        is_record_of(r, language@, *p, opt_view(image_url), opt_view(local_file_path)),
{
    PictogramDto {
        arasaac_id: p.id,
        keywords: extract_keyword_tokens(p),
        category: first_string(&p.categories),
        categories: copy_strings(&p.categories),
        tags: copy_strings(&p.tags),
        language: String::from_str(language),
        image_url,
        local_file_path,
        width: None,
        height: None,
        license: String::from_str(DEFAULT_LICENSE),
        description: copy_opt(&p.desc),
    }
}

/// The record for origin metadata that has not been materialized: the raster
/// address as image, no local asset.
pub fn remote_to_dto(language: &str, p: &RemotePictogram) -> (r: PictogramDto)
    ensures
        is_record_of(r, language@, *p, Some(raster_url_spec(p.id as int)), None),
{
    origin_record(language, p, Some(build_remote_png_url(p.id)), None)
}

} // verus!
