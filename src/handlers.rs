//! What each request of the service decides, from the raw parameters to
//! the status code and body that the transport layer sends back.
use vstd::prelude::*;
use crate::models::{CollectionContentResponse, ContentKind, Timestamp};
use crate::pagination::{opt_view, resolve, resolved};
use crate::policy::{added, strs, without};
use crate::store::{add_to_state, remove_from_state, MutableStaticData, StoreError};

verus! {

/// The body of every answer that carries no data.
#[derive(Debug)]
pub struct GenericResponse {
    pub status: String,
    pub detail: Option<String>,
}

/// Which mutation a request asks for.
#[derive(Clone, Copy, Debug, PartialEq, Eq, Structural)]
pub enum MutationKind {
    Put,
    Delete,
}

/// The pieces of `s` between commas, in order. There is always at least
/// one piece: the empty string gives one empty piece.
pub open spec fn split_commas(s: Seq<char>) -> Seq<Seq<char>>
    decreases s.len(),
{
    if s.len() == 0 {
        seq![Seq::empty()]
    } else {
        let r = split_commas(s.drop_last());
        if s.last() == ',' {
            r.push(Seq::empty())
        } else {
            r.update(r.len() - 1, r.last().push(s.last()))
        }
    }
}

proof fn lemma_split_nonempty(s: Seq<char>)
    ensures
        split_commas(s).len() >= 1,
    decreases s.len(),
{
    if s.len() > 0 {
        lemma_split_nonempty(s.drop_last());
    }
}

/// Splits an `id` request parameter at its commas into the recipe ids.
pub fn split_id_list(param: &str) -> (r: Vec<String>)
    ensures
        strs(r@) == split_commas(param@),
{
    let n = param.unicode_len();
    let mut out: Vec<String> = Vec::new();
    let mut start: usize = 0;
    let mut i: usize = 0;
    assert(param@.take(0) =~= Seq::<char>::empty());
    assert(param@.subrange(0, 0) =~= Seq::<char>::empty());
    assert(strs(out@).push(Seq::<char>::empty()) =~= split_commas(Seq::<char>::empty()));
    while i < n
        invariant
            n == param@.len(),
            start <= i <= n,
            strs(out@).push(param@.subrange(start as int, i as int)) == split_commas(
                param@.take(i as int),
            ),
        decreases n - i,
    {
        let c = param.get_char(i);
        let ghost t = param@.take(i as int + 1);
        assert(t.drop_last() =~= param@.take(i as int));
        assert(t.last() == c);
        if c == ',' {
            let piece = param.substring_char(start, i).to_string();
            proof {
                assert(strs(out@.push(piece)) =~= strs(out@).push(piece@));
            }
            out.push(piece);
            start = i + 1;
            assert(param@.subrange(start as int, start as int) =~= Seq::<char>::empty());
        } else {
            proof {
                lemma_split_nonempty(param@.take(i as int));
                assert(param@.subrange(start as int, i as int + 1) =~= param@.subrange(
                    start as int,
                    i as int,
                ).push(c));
                assert(strs(out@).push(param@.subrange(start as int, i as int + 1)) =~= strs(
                    out@,
                ).push(param@.subrange(start as int, i as int)).update(
                    out@.len() as int,
                    param@.subrange(start as int, i as int).push(c),
                ));
            }
        }
        i += 1;
    }
    let piece = param.substring_char(start, n).to_string();
    proof {
        assert(param@.take(n as int) =~= param@);
        assert(strs(out@.push(piece)) =~= strs(out@).push(piece@));
    }
    out.push(piece);
    out
}

/// One page of the collection `collection_id`, chosen by the raw `offset`
/// and `limit` parameters, stamped with `now`. `NotFound` where no such
/// collection was seeded.
pub fn collection_content(
    state: &MutableStaticData,
    collection_id: &str,
    offset_param: Option<&str>,
    limit_param: Option<&str>,
    now: Timestamp,
) -> (r: Result<CollectionContentResponse, StoreError>)
    requires
        state.wf(),
    ensures
        r is Ok <==> state@.contains_key(collection_id@),
        r is Err ==> r->Err_0 == StoreError::NotFound,
        r is Ok ==> {
            &&& strs(r->Ok_0.content@) == resolved(
                state@[collection_id@],
                opt_view(offset_param),
                opt_view(limit_param),
            )
            &&& r->Ok_0.content_type == ContentKind::Recipe
            &&& r->Ok_0.last_modified == Some(now)
        },
{
    match state.get(collection_id) {
        None => Err(StoreError::NotFound),
        Some(items) => {
            let content = resolve(items, offset_param, limit_param);
            proof {
                lemma_strs_resolved(items@, opt_view(offset_param), opt_view(limit_param));
            }
            Ok(
                CollectionContentResponse {
                    content,
                    content_type: ContentKind::Recipe,
                    last_modified: Some(now),
                },
            )
        },
    }
}

proof fn lemma_strs_resolved(
    s: Seq<String>,
    offset_param: Option<Seq<char>>,
    limit_param: Option<Seq<char>>,
)
    ensures
        strs(resolved(s, offset_param, limit_param)) == resolved(
            strs(s),
            offset_param,
            limit_param,
        ),
{
    assert(strs(resolved(s, offset_param, limit_param)) =~= resolved(
        strs(s),
        offset_param,
        limit_param,
    ));
}

/// What a mutation of the given kind makes of a collection's contents.
pub open spec fn kind_applied(kind: MutationKind, s: Seq<Seq<char>>, ids: Seq<Seq<char>>) -> Seq<
    Seq<char>,
> {
    match kind {
        MutationKind::Put => added(s, ids),
        MutationKind::Delete => without(s, ids),
    }
}

/// Handles a request to add (`Put`) or remove (`Delete`) the ids of the
/// `id` parameter: a missing parameter is `None`, else what the store
/// operation gave.
pub fn apply_id_param(
    state: &mut MutableStaticData,
    kind: MutationKind,
    collection_id: &str,
    id_param: Option<&str>,
) -> (r: Option<Result<(), StoreError>>)
    requires
        old(state).wf(),
    ensures
        final(state).wf(),
        final(state).profile() == old(state).profile(),
        r is None <==> id_param is None,
        id_param is None ==> final(state)@ == old(state)@,
        id_param is Some ==> (r->0 is Ok <==> old(state)@.contains_key(collection_id@)),
        id_param is Some && r->0 is Err ==> r->0 == Err::<(), StoreError>(StoreError::NotFound),
        id_param is Some && r->0 is Err ==> final(state)@ == old(state)@,
        id_param is Some && r->0 is Ok ==> final(state)@ == old(state)@.insert(
            collection_id@,
            kind_applied(kind, old(state)@[collection_id@], split_commas(id_param->0@)),
        ),
{
    match id_param {
        None => None,
        Some(param) => {
            let ids = split_id_list(param);
            proof {
                lemma_split_nonempty(param@);
            }
            match kind {
                MutationKind::Put => Some(add_to_state(state, collection_id, ids)),
                MutationKind::Delete => Some(remove_from_state(state, collection_id, ids)),
            }
        },
    }
}

/// The answer to an unknown route: 404, "not_found", "Bad URL".
pub fn bad_url_reply() -> (r: (u16, GenericResponse))
    ensures
        r.0 == 404,
        r.1.status@ == "not_found"@,
        r.1.detail is Some && r.1.detail->0@ == "Bad URL"@,
{
    (404, GenericResponse { status: "not_found".to_string(), detail: Some("Bad URL".to_string()) })
}

/// The answer to a read of an unknown collection: 404, "not_found".
pub fn unknown_collection_reply() -> (r: (u16, GenericResponse))
    ensures
        r.0 == 404,
        r.1.status@ == "not_found"@,
        r.1.detail is Some && r.1.detail->0@ == "That collection ID does not exist"@,
{
    (
        404,
        GenericResponse {
            status: "not_found".to_string(),
            detail: Some("That collection ID does not exist".to_string()),
        },
    )
}

/// The answer to a mutation request: 400 "bad_request" where the `id`
/// parameter was missing, 204 "updated" on success, else the error's code
/// with status "not_found" and the error's message.
pub fn mutation_reply(kind: MutationKind, outcome: Option<Result<(), StoreError>>) -> (r: (
    u16,
    GenericResponse,
))
    ensures
        outcome is None ==> r.0 == 400 && r.1.status@ == "bad_request"@ && r.1.detail is Some
            && r.1.detail->0@ == match kind {
            MutationKind::Put => "you must provide ?id= to indicate the ids to put"@,
            MutationKind::Delete => "you must provide ?id= to indicate the ids to remove"@,
        },
        outcome == Some(Ok::<(), StoreError>(())) ==> r.0 == 204 && r.1.status@ == "updated"@
            && r.1.detail is None,
        outcome == Some(Err::<(), StoreError>(StoreError::ClientInput)) ==> r.0 == 400
            && r.1.status@ == "not_found"@ && r.1.detail is Some && r.1.detail->0@
            == "no recipes to add"@,
        outcome == Some(Err::<(), StoreError>(StoreError::NotFound)) ==> r.0 == 404
            && r.1.status@ == "not_found"@ && r.1.detail is Some && r.1.detail->0@
            == "collection did not exist"@,
{
    match outcome {
        None => {
            let detail = match kind {
                MutationKind::Put => "you must provide ?id= to indicate the ids to put".to_string(),
                MutationKind::Delete => "you must provide ?id= to indicate the ids to remove".to_string(),
            };
            (400, GenericResponse { status: "bad_request".to_string(), detail: Some(detail) })
        },
        Some(Ok(())) => (204, GenericResponse { status: "updated".to_string(), detail: None }),
        Some(Err(StoreError::ClientInput)) => (
            400,
            GenericResponse {
                status: "not_found".to_string(),
                detail: Some("no recipes to add".to_string()),
            },
        ),
        Some(Err(StoreError::NotFound)) => (
            404,
            GenericResponse {
                status: "not_found".to_string(),
                detail: Some("collection did not exist".to_string()),
            },
        ),
    }
}

} // verus!
