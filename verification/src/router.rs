//! The request router: maps one (method, path) pair to exactly one
//! response, synchronously and statelessly.
//!
//! The path is split on `/`; the second segment names the resource and
//! the third, when present and not all whitespace, is the artifact id to
//! look up. `GET /artifacts` (or with an id segment that trims to empty)
//! lists the whole dataset; `GET /artifacts/<id>` returns the matching
//! record, or the fixed text `Car not found` when no record matches —
//! deliberately with status 200, not 404, a quirk kept for compatibility
//! with existing clients; every other method or resource gets a 404 with
//! an empty body.
//!
//! The JSON writers of this crate are total, so the serialization
//! failure a general-purpose serializer could report cannot arise and no
//! 500 response is ever produced.

use vstd::prelude::*;
use vstd::string::StringExecFns;

use crate::artifact::ArtifactModel;
use crate::artifact::artifacts;
use crate::artifact::dataset_model;
use crate::artifact::models_of;
use crate::json::artifact_json;
use crate::json::artifact_to_json;
use crate::json::artifacts_to_json;
use crate::json::joined_json;
use crate::json::list_json;
use crate::text::all_whitespace;
use crate::text::lemma_split_leading_slash;
use crate::text::seg_views;
use crate::text::split_model;
use crate::text::split_slash;
use crate::text::str_eq;
use crate::text::trims_empty;

verus! {

/// The mathematical model of an [`HttpResponse`].
pub ghost struct ResponseModel {
    pub status_code: u16,
    pub content_type: Option<Seq<char>>,
    pub body: Seq<char>,
}

/// One HTTP response: a status code, an optional `Content-Type` header
/// value, and a body.
pub struct HttpResponse {
    pub status_code: u16,
    pub content_type: Option<String>,
    pub body: String,
}

impl View for HttpResponse {
    type V = ResponseModel;

    open spec fn view(&self) -> ResponseModel {
        ResponseModel {
            status_code: self.status_code,
            content_type: match self.content_type {
                Option::Some(ct) => Option::Some(ct@),
                Option::None => Option::None,
            },
            body: self.body@,
        }
    }
}

/// The list-all response: 200, `application/json`, the whole dataset as
/// a JSON array.
pub open spec fn list_response_model() -> ResponseModel {
    ResponseModel {
        status_code: 200,
        content_type: Option::Some("application/json"@),
        body: list_json(dataset_model()),
    }
}

/// The first artifact of `ds` whose id is exactly `id`, if any.
pub open spec fn find_model(ds: Seq<ArtifactModel>, id: Seq<char>) -> Option<ArtifactModel>
    decreases ds.len(),
{
    if ds.len() == 0 {
        Option::None
    } else if ds[0].id == id {
        Option::Some(ds[0])
    } else {
        find_model(ds.drop_first(), id)
    }
}

/// The lookup response for `id`: the matching record as a JSON object,
/// or — still with status 200 — the fixed plain text `Car not found`
/// and no content type when nothing matches.
pub open spec fn lookup_response_model(id: Seq<char>) -> ResponseModel {
    match find_model(dataset_model(), id) {
        Option::Some(a) => ResponseModel {
            status_code: 200,
            content_type: Option::Some("application/json"@),
            body: artifact_json(a),
        },
        Option::None => ResponseModel {
            status_code: 200,
            content_type: Option::None,
            body: "Car not found"@,
        },
    }
}

/// The response for an unmatched route: 404, no headers, empty body.
pub open spec fn not_found_response_model() -> ResponseModel {
    ResponseModel { status_code: 404, content_type: Option::None, body: Seq::empty() }
}

/// The router's whole contract: which response any (method, path) pair
/// is answered with.
pub open spec fn handle_model(method: Seq<char>, path: Seq<char>) -> ResponseModel {
    let segs = split_model(path);
    if method == "GET"@ && segs.len() > 1 && segs[1] == "artifacts"@ {
        if segs.len() <= 2 || trims_empty(segs[2]) {
            list_response_model()
        } else {
            lookup_response_model(segs[2])
        }
    } else {
        not_found_response_model()
    }
}

/// Serves the full dataset as a JSON array.
pub fn get_artifact_list() -> (r: HttpResponse)
    ensures
        r@ == list_response_model(),
{
    let ds = artifacts();
    let body = artifacts_to_json(&ds);
    HttpResponse {
        status_code: 200,
        content_type: Option::Some("application/json".to_owned()),
        body,
    }
}

/// Serves the first record whose id equals `artifact_id` exactly
/// (case-sensitive, no trimming), or the `Car not found` text.
pub fn get_artifact_by_id(artifact_id: &str) -> (r: HttpResponse)
    ensures
        r@ == lookup_response_model(artifact_id@),
{
    let ds = artifacts();
    let n = ds.len();
    let mut i: usize = 0;
    proof {
        assert(dataset_model().skip(0) =~= dataset_model());
    }
    while i < n
        invariant
            n == ds@.len(),
            i <= n,
            models_of(ds@) == dataset_model(),
            find_model(dataset_model().skip(i as int), artifact_id@) == find_model(
                dataset_model(),
                artifact_id@,
            ),
        decreases n - i,
    {
        proof {
            assert(dataset_model().skip(i as int)[0] == dataset_model()[i as int]);
            assert(dataset_model()[i as int] == ds@[i as int]@);
        }
        if str_eq(ds[i].id.as_str(), artifact_id) {
            let body = artifact_to_json(&ds[i]);
            return HttpResponse {
                status_code: 200,
                content_type: Option::Some("application/json".to_owned()),
                body,
            };
        }
        proof {
            assert(dataset_model().skip(i as int).drop_first() =~= dataset_model().skip(
                i as int + 1,
            ));
        }
        i += 1;
    }
    proof {
        assert(dataset_model().skip(n as int) =~= Seq::<ArtifactModel>::empty());
    }
    HttpResponse {
        status_code: 200,
        content_type: Option::None,
        body: "Car not found".to_owned(),
    }
}

/// Routes one request. The path must begin with `/`, as every HTTP
/// origin-form request target does.
pub fn artifacts_handler(method: &str, path: &str) -> (r: HttpResponse)
    requires
        path@.len() > 0,
        path@[0] == '/',
    ensures
        r@ == handle_model(method@, path@),
{
    let segs = split_slash(path);
    proof {
        lemma_split_leading_slash(path@);
        assert(seg_views(segs@).len() == segs@.len());
    }
    let is_get = str_eq(method, "GET");
    let seg1 = &segs[1];
    if is_get && str_eq(seg1.as_str(), "artifacts") {
        if segs.len() <= 2 || all_whitespace(segs[2].as_str()) {
            get_artifact_list()
        } else {
            get_artifact_by_id(segs[2].as_str())
        }
    } else {
        HttpResponse { status_code: 404, content_type: Option::None, body: String::new() }
    }
}

/// Law: a request whose method is not GET or whose base path is not
/// `artifacts` — whatever else the path holds — is answered with 404 and
/// an empty body.
pub proof fn lemma_unmatched_route(method: Seq<char>, path: Seq<char>)
    requires
        !(method == "GET"@ && split_model(path).len() > 1 && split_model(path)[1]
            == "artifacts"@),
    ensures
        handle_model(method, path) == not_found_response_model(),
{
}

/// Law: a `GET` on the `artifacts` resource whose id segment is missing
/// or trims to the empty string — `/artifacts` and `/artifacts/` alike —
/// is answered with the full list, so the two forms get the identical
/// response.
pub proof fn lemma_empty_id_lists(method: Seq<char>, path: Seq<char>)
    requires
        method == "GET"@,
        split_model(path).len() > 1,
        split_model(path)[1] == "artifacts"@,
        split_model(path).len() <= 2 || trims_empty(split_model(path)[2]),
    ensures
        handle_model(method, path) == list_response_model(),
{
}

/// Law: the response to a request is a function of its method and path
/// alone, so repeating any request with no state change in between
/// yields the identical response.
pub proof fn lemma_repeated_request_same_response(
    method: Seq<char>,
    path: Seq<char>,
    r1: ResponseModel,
    r2: ResponseModel,
)
    requires
        r1 == handle_model(method, path),
        r2 == handle_model(method, path),
    ensures
        r1 == r2,
{
}

/// Law: the list response is the array of exactly the four dataset
/// records' JSON objects, in dataset order — the very objects the lookup
/// handler serves one by one (see
/// [`lemma_lookup_finds_dataset_record`]).
#[verifier::rlimit(50)]
pub proof fn lemma_list_body_shape()
    ensures
        list_response_model().status_code == 200,
        list_response_model().content_type == Option::Some("application/json"@),
        dataset_model().len() == 4,
        list_response_model().body == seq!['['] + artifact_json(dataset_model()[0]) + seq![',']
            + artifact_json(dataset_model()[1]) + seq![','] + artifact_json(dataset_model()[2])
            + seq![','] + artifact_json(dataset_model()[3]) + seq![']'],
{
    let ds = dataset_model();
    let d1 = ds.drop_first();
    let d2 = d1.drop_first();
    let d3 = d2.drop_first();
    assert(d1 =~= seq![ds[1], ds[2], ds[3]]);
    assert(d2 =~= seq![ds[2], ds[3]]);
    assert(d3 =~= seq![ds[3]]);
    assert(joined_json(d3) == artifact_json(ds[3]));
    assert(joined_json(d2) == artifact_json(ds[2]) + seq![','] + joined_json(d3));
    assert(joined_json(d1) == artifact_json(ds[1]) + seq![','] + joined_json(d2));
    assert(joined_json(ds) == artifact_json(ds[0]) + seq![','] + joined_json(d1));
    assert(list_json(ds) =~= seq!['['] + artifact_json(ds[0]) + seq![','] + artifact_json(ds[1])
        + seq![','] + artifact_json(ds[2]) + seq![','] + artifact_json(ds[3]) + seq![']']);
}

/// Law: the ids of the four dataset records are distinct, and looking
/// any of them up returns status 200, the JSON content type, and as body
/// exactly the JSON object of that record — byte-identical to the
/// object the list response carries for it (see
/// [`lemma_list_body_shape`]).
pub proof fn lemma_lookup_finds_dataset_record(i: int)
    requires
        0 <= i < dataset_model().len(),
    ensures
        lookup_response_model(dataset_model()[i].id) == (ResponseModel {
            status_code: 200,
            content_type: Option::Some("application/json"@),
            body: artifact_json(dataset_model()[i]),
        }),
{
    let ds = dataset_model();
    reveal_strlit("1");
    reveal_strlit("2");
    reveal_strlit("3");
    reveal_strlit("4");
    assert("1"@[0] == '1' && "2"@[0] == '2' && "3"@[0] == '3' && "4"@[0] == '4');
    let id = ds[i].id;
    let d1 = ds.drop_first();
    let d2 = d1.drop_first();
    let d3 = d2.drop_first();
    assert(d1 =~= seq![ds[1], ds[2], ds[3]]);
    assert(d2 =~= seq![ds[2], ds[3]]);
    assert(d3 =~= seq![ds[3]]);
    if i == 0 {
        assert(find_model(ds, id) == Option::Some(ds[0]));
    } else if i == 1 {
        assert(ds[0].id != id);
        assert(find_model(ds, id) == find_model(d1, id));
        assert(find_model(d1, id) == Option::Some(ds[1]));
    } else if i == 2 {
        assert(ds[0].id != id && ds[1].id != id);
        assert(find_model(ds, id) == find_model(d1, id));
        assert(find_model(d1, id) == find_model(d2, id));
        assert(find_model(d2, id) == Option::Some(ds[2]));
    } else {
        assert(ds[0].id != id && ds[1].id != id && ds[2].id != id);
        assert(find_model(ds, id) == find_model(d1, id));
        assert(find_model(d1, id) == find_model(d2, id));
        assert(find_model(d2, id) == find_model(d3, id));
        assert(find_model(d3, id) == Option::Some(ds[3]));
    }
}

} // verus!
