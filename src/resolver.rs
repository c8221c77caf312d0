use vstd::prelude::*;

use crate::error::{bad_request, AppError};
use crate::model::{PictogramDto, RemotePictogram};
use crate::origin::{
    is_record_of, origin_items, pick_by_id, raster_url_spec, remote_to_dto, status_kind,
    OriginStatus,
};
use crate::ranking::{is_ranking_by, rank_by_fuzzy_score};
use crate::text::{chars_of, normalize_language, normalized_language, string_of, trim_chars, trim_ws};

verus! {

// ---------------------------------------------------------------------------
// Free-text search
// ---------------------------------------------------------------------------

/// Checks a search request and normalizes it: the language as
/// `normalize_language` gives it, the query trimmed. An empty query is a
/// `BadRequest`.
pub fn prepare_search(language: &str, query: &str) -> (r: Result<(String, String), AppError>)
    ensures
        r is Err <==> trim_ws(query@).len() == 0,
        r matches Err(e) ==> e is BadRequest,
        r matches Ok((l, q)) ==> l@ == normalized_language(language@) && q@ == trim_ws(query@),
{
    let q = trim_chars(&chars_of(query), false);
    if q.len() == 0 {
        return Err(bad_request("Query cannot be empty"));
    }
    Ok((normalize_language(language), string_of(q.as_slice())))
}

/// The answer from the Local Store alone: its records ranked against the
/// query, or nothing when it had none and the origin must be asked.
pub fn search_from_local(local: Vec<PictogramDto>, query: &str) -> (r: Option<Vec<PictogramDto>>)
    ensures
        r is None <==> local@.len() == 0,
        r matches Some(v) ==> is_ranking_by(local@, v@, query@),
{
    if local.len() == 0 {
        None
    } else {
        Some(rank_by_fuzzy_score(local, query))
    }
}

/// `m` maps each origin hit to its record, in order.
pub open spec fn maps_hits(m: Seq<PictogramDto>, language: Seq<char>, hits: Seq<RemotePictogram>) -> bool {
    &&& m.len() == hits.len()
    &&& forall|k: int|
        0 <= k < hits.len() ==> is_record_of(
            #[trigger] m[k],
            language,
            hits[k],
            Some(raster_url_spec(hits[k].id as int)),
            None,
        )
}

/// Maps origin hits to records directly, as when the Local Store cannot serve them.
pub fn map_hits(language: &str, hits: &Vec<RemotePictogram>) -> (r: Vec<PictogramDto>)
    ensures
        maps_hits(r@, language@, hits@),
{
    let mut out: Vec<PictogramDto> = Vec::new();
    let mut i: usize = 0;
    while i < hits.len()
        invariant
            i <= hits@.len(),
            out@.len() == i,
            forall|k: int|
                0 <= k < i ==> is_record_of(
                    #[trigger] out@[k],
                    language@,
                    hits@[k],
                    Some(raster_url_spec(hits@[k].id as int)),
                    None,
                ),
        decreases hits@.len() - i,
    {
        out.push(remote_to_dto(language, &hits[i]));
        i = i + 1;
    }
    out
}

/// The answer after the origin was asked. No hits: an empty answer. Otherwise
/// the records read back from the Local Store after caching the hits, ranked;
/// when that read gave nothing or the store was unavailable (`None`), the
/// hits mapped directly, ranked.
pub fn finish_search(
    language: &str,
    query: &str,
    hits: &Vec<RemotePictogram>,
    reread: Option<Vec<PictogramDto>>,
) -> (r: Vec<PictogramDto>)
    ensures
        hits@.len() == 0 ==> r@.len() == 0,
        hits@.len() > 0 ==> match reread {
            Some(v) => if v@.len() > 0 {
                is_ranking_by(v@, r@, query@)
            } else {
                exists|m: Seq<PictogramDto>|
                    maps_hits(m, language@, hits@) && #[trigger] is_ranking_by(m, r@, query@)
            },
            None => exists|m: Seq<PictogramDto>|
                maps_hits(m, language@, hits@) && #[trigger] is_ranking_by(m, r@, query@),
        },
{
    if hits.len() == 0 {
        return Vec::new();
    }
    match reread {
        Some(v) => {
            if v.len() > 0 {
                return rank_by_fuzzy_score(v, query);
            }
        },
        None => {},
    }
    let mapped = map_hits(language, hits);
    let ghost m = mapped@;
    let r = rank_by_fuzzy_score(mapped, query);
    assert(maps_hits(m, language@, hits@) && is_ranking_by(m, r@, query@));
    r
}

// ---------------------------------------------------------------------------
// Resolution by id
// ---------------------------------------------------------------------------

/// What resolving an id does next.
#[derive(Debug, Clone, PartialEq)]
pub enum ResolveStep {
    /// The Local Store's record is served as it is: no origin call.
    Done(PictogramDto),
    /// The origin must be asked.
    FetchOrigin,
}

/// A stored record is served without asking the origin exactly when it has
/// an asset reference whose file exists.
pub open spec fn is_cache_hit(local: Option<PictogramDto>, file_exists: bool) -> bool {
    match local {
        Some(p) => p.local_file_path is Some && file_exists,
        None => false,
    }
}

pub open spec fn resolve_step_spec(local: Option<PictogramDto>, file_exists: bool) -> ResolveStep {
    if is_cache_hit(local, file_exists) {
        ResolveStep::Done(local->Some_0)
    } else {
        ResolveStep::FetchOrigin
    }
}

/// Checks that an id can name a pictogram: non-positive ids are a `BadRequest`.
pub fn check_pictogram_id(arasaac_id: i32) -> (r: Result<(), AppError>)
    ensures
        r is Ok <==> arasaac_id > 0,
        r matches Err(e) ==> e is BadRequest,
{
    if arasaac_id <= 0 {
        Err(bad_request("Invalid pictogram id"))
    } else {
        Ok(())
    }
}

/// The first step of resolving an id, from the Local Store's record for it
/// and whether the file behind that record's asset reference exists.
pub fn resolve_step(arasaac_id: i32, local: Option<PictogramDto>, file_exists: bool) -> (r: Result<
    ResolveStep,
    AppError,
>)
    ensures
        arasaac_id <= 0 ==> r matches Err(AppError::BadRequest(_)),
        arasaac_id > 0 ==> r == Ok::<ResolveStep, AppError>(resolve_step_spec(local, file_exists)),
{
    match check_pictogram_id(arasaac_id) {
        Err(e) => Err(e),
        Ok(()) => match local {
            Some(p) => {
                if p.local_file_path.is_some() && file_exists {
                    Ok(ResolveStep::Done(p))
                } else {
                    Ok(ResolveStep::FetchOrigin)
                }
            },
            None => Ok(ResolveStep::FetchOrigin),
        },
    }
}

/// Resolving an id whose stored record points to an existing file asks the
/// origin nothing and serves that record unchanged. That step writes
/// nothing, so the store still holds that record and a second resolution serves
/// the same record again, also without asking the origin.
pub proof fn lemma_cached_resolution_is_idempotent(store: Map<i32, PictogramDto>, id: i32)
    requires
        store.contains_key(id),
        store[id].local_file_path is Some,
    ensures
        resolve_step_spec(Some(store[id]), true) == ResolveStep::Done(store[id]),
{
}

/// The origin record that a fetch by id yields, from the response status and
/// its decoded body: `RateLimited` on throttling, never `Internal`;
/// `NotFound` when the origin reports no match or an empty list; `Internal`
/// on any other failure; otherwise the last record of the list.
pub fn fetched_pictogram(status: u16, body: Option<Vec<RemotePictogram>>) -> (r: Result<
    RemotePictogram,
    AppError,
>)
    ensures
        status == 429 ==> r matches Err(AppError::RateLimited),
        status_kind(status) == OriginStatus::NoMatches ==> r matches Err(AppError::NotFound),
        status_kind(status) == OriginStatus::Failed ==> r matches Err(AppError::Internal(_)),
        status_kind(status) == OriginStatus::Success ==> match body {
            Some(v) => if v@.len() == 0 {
                r matches Err(AppError::NotFound)
            } else {
                r == Ok::<RemotePictogram, AppError>(v@.last())
            },
            None => r matches Err(AppError::Internal(_)),
        },
{
    match origin_items(status, body) {
        Ok(list) => pick_by_id(list),
        Err(e) => Err(e),
    }
}

/// Whether a stored asset can be kept when the origin is consulted again: the
/// stored reference exists on disk. Otherwise the asset is materialized anew.
pub fn keeps_existing_asset(existing: &Option<String>, file_exists: bool) -> (r: bool)
    ensures
        r == (existing is Some && file_exists),
{
    existing.is_some() && file_exists
}

/// The record served after the origin answered: the one read back from the
/// Local Store after the upsert, or, when the upsert failed or the read gave
/// nothing (`None`), the origin record mapped directly.
pub fn finish_resolve(language: &str, remote: &RemotePictogram, reread: Option<PictogramDto>) -> (r:
    PictogramDto)
    ensures
        match reread {
            Some(p) => r == p,
            None => is_record_of(r, language@, *remote, Some(raster_url_spec(remote.id as int)), None),
        },
{
    match reread {
        Some(p) => p,
        None => remote_to_dto(language, remote),
    }
}

// ---------------------------------------------------------------------------
// The Local Store as a map from id to record
// ---------------------------------------------------------------------------

/// The store after an upsert: the record replaces whatever was stored under its id.
pub open spec fn upsert(store: Map<i32, PictogramDto>, rec: PictogramDto) -> Map<i32, PictogramDto> {
    store.insert(rec.arasaac_id, rec)
}

/// Every asset reference that a record carries names a file in `files`.
pub open spec fn asset_backed(rec: PictogramDto, files: Set<Seq<char>>) -> bool {
    match rec.local_file_path {
        Some(p) => files.contains(p@),
        None => true,
    }
}

/// Two upserts for one id, in either order, leave exactly one record under
/// that id, the one written last; when each writer's asset reference named a
/// written file, so does the stored one.
pub proof fn lemma_upsert_convergence(
    store: Map<i32, PictogramDto>,
    first: PictogramDto,
    second: PictogramDto,
    files: Set<Seq<char>>,
)
    requires
        first.arasaac_id == second.arasaac_id,
        asset_backed(first, files),
        asset_backed(second, files),
    ensures
        upsert(upsert(store, first), second).contains_key(second.arasaac_id),
        upsert(upsert(store, first), second)[second.arasaac_id] == second,
        upsert(upsert(store, first), second).dom() == store.dom().insert(first.arasaac_id),
        upsert(upsert(store, second), first).dom() == store.dom().insert(first.arasaac_id),
        asset_backed(upsert(upsert(store, first), second)[second.arasaac_id], files),
        asset_backed(upsert(upsert(store, second), first)[first.arasaac_id], files),
{
    assert(upsert(upsert(store, first), second).dom() =~= store.dom().insert(first.arasaac_id));
    assert(upsert(upsert(store, second), first).dom() =~= store.dom().insert(first.arasaac_id));
}

// ---------------------------------------------------------------------------
// Newest pictograms and keyword lists
// ---------------------------------------------------------------------------

/// How many newest pictograms to ask for: `n` clamped to `[1, 100]`.
pub fn clamp_newest_count(n: u32) -> (r: u32)
    ensures
        r == if n < 1 {
            1
        } else if n > 100 {
            100
        } else {
            n
        },
{
    if n < 1 {
        1
    } else if n > 100 {
        100
    } else {
        n
    }
}

/// The newest pictograms served: none when the origin had none; the records
/// read back from the Local Store when that read gave any; the origin
/// records mapped directly otherwise.
pub fn finish_newest(
    language: &str,
    hits: &Vec<RemotePictogram>,
    reread: Option<Vec<PictogramDto>>,
) -> (r: Vec<PictogramDto>)
    ensures
        hits@.len() == 0 ==> r@.len() == 0,
        hits@.len() > 0 ==> match reread {
            Some(v) => if v@.len() > 0 {
                r == v
            } else {
                maps_hits(r@, language@, hits@)
            },
            None => maps_hits(r@, language@, hits@),
        },
{
    if hits.len() == 0 {
        return Vec::new();
    }
    match reread {
        Some(v) => {
            if v.len() > 0 {
                return v;
            }
        },
        None => {},
    }
    map_hits(language, hits)
}

/// The keyword list of a language, from the origin's status and the decoded
/// `words` array (`None` when the body could not be decoded).
pub fn keyword_list(status: u16, words: Option<Vec<String>>) -> (r: Result<Vec<String>, AppError>)
    ensures
        status_kind(status) == OriginStatus::RateLimited ==> r matches Err(AppError::RateLimited),
        status_kind(status) == OriginStatus::NoMatches ==> (r matches Ok(v) && v@.len() == 0),
        status_kind(status) == OriginStatus::Failed ==> r matches Err(AppError::Internal(_)),
        status_kind(status) == OriginStatus::Success ==> match words {
            Some(v) => r == Ok::<Vec<String>, AppError>(v),
            None => r matches Err(AppError::Internal(_)),
        },
{
    origin_items(status, words)
}

} // verus!
