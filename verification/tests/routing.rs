use artifact_server::router::artifacts_handler;

const LIST_BODY: &str = "[{\"id\":\"1\",\"country_of_origin\":\"Armenia\",\"name\":\"Pottery 12B Oregon\",\
\"whereabout\":\"British Museum\",\"year_of_discovery\":2015},\
{\"id\":\"2\",\"country_of_origin\":\"Turkey\",\"name\":\"Mud Statue Female Goddess H9 Kenneth\",\
\"whereabout\":\"Chinese National Museum - Beijing Branch\",\"year_of_discovery\":2003},\
{\"id\":\"3\",\"country_of_origin\":\"Greece\",\"name\":\"Hourglass 1765 Poinlace\",\
\"whereabout\":\"Lost\",\"year_of_discovery\":1979},\
{\"id\":\"4\",\"country_of_origin\":\"Egypt\",\"name\":\"Hieratic Payprus 2000 BCE Tara\",\
\"whereabout\":\"Egypt Cairo Museum\",\"year_of_discovery\":1988}]";

#[test]
fn list_all_returns_four_artifacts_in_order() {
    let r = artifacts_handler("GET", "/artifacts");
    assert_eq!(r.status_code, 200);
    assert_eq!(r.content_type.as_deref(), Some("application/json"));
    assert_eq!(r.body, LIST_BODY);

    let v: serde_json::Value = serde_json::from_str(&r.body).unwrap();
    let arr = v.as_array().unwrap();
    assert_eq!(arr.len(), 4);
    let ids: Vec<&str> = arr.iter().map(|o| o.get("id").unwrap().as_str().unwrap()).collect();
    assert_eq!(ids, vec!["1", "2", "3", "4"]);
    let second = &arr[1];
    assert_eq!(second.get("country_of_origin").unwrap().as_str().unwrap(), "Turkey");
    assert_eq!(second.get("year_of_discovery").unwrap().as_u64().unwrap(), 2003);
    assert_eq!(
        second.get("whereabout").unwrap().as_str().unwrap(),
        "Chinese National Museum - Beijing Branch"
    );
}

#[test]
fn lookup_known_id_returns_its_json_object() {
    let r = artifacts_handler("GET", "/artifacts/3");
    assert_eq!(r.status_code, 200);
    assert_eq!(r.content_type.as_deref(), Some("application/json"));
    assert_eq!(
        r.body,
        "{\"id\":\"3\",\"country_of_origin\":\"Greece\",\"name\":\"Hourglass 1765 Poinlace\",\
         \"whereabout\":\"Lost\",\"year_of_discovery\":1979}"
    );
}

#[test]
fn lookup_unknown_id_returns_car_not_found_with_status_200() {
    let r = artifacts_handler("GET", "/artifacts/99");
    assert_eq!(r.status_code, 200);
    assert_eq!(r.content_type, None);
    assert_eq!(r.body, "Car not found");
}

#[test]
fn trailing_slash_returns_the_same_as_bare_list() {
    let bare = artifacts_handler("GET", "/artifacts");
    let slashed = artifacts_handler("GET", "/artifacts/");
    assert_eq!(slashed.status_code, bare.status_code);
    assert_eq!(slashed.content_type, bare.content_type);
    assert_eq!(slashed.body, bare.body);
}

#[test]
fn whitespace_id_segment_returns_the_full_list() {
    let r = artifacts_handler("GET", "/artifacts/ \t ");
    assert_eq!(r.status_code, 200);
    assert_eq!(r.body, LIST_BODY);
}

#[test]
fn unknown_path_returns_404_with_empty_body() {
    let r = artifacts_handler("GET", "/unknown");
    assert_eq!(r.status_code, 404);
    assert_eq!(r.content_type, None);
    assert_eq!(r.body, "");
}

#[test]
fn post_to_artifacts_returns_404_with_empty_body() {
    let r = artifacts_handler("POST", "/artifacts");
    assert_eq!(r.status_code, 404);
    assert_eq!(r.content_type, None);
    assert_eq!(r.body, "");
}

#[test]
fn root_path_returns_404() {
    let r = artifacts_handler("GET", "/");
    assert_eq!(r.status_code, 404);
    assert_eq!(r.body, "");
}

#[test]
fn base_path_match_is_case_sensitive() {
    let r = artifacts_handler("GET", "/Artifacts");
    assert_eq!(r.status_code, 404);
}

#[test]
fn id_match_is_exact_without_trimming() {
    let r = artifacts_handler("GET", "/artifacts/ 3");
    assert_eq!(r.status_code, 200);
    assert_eq!(r.body, "Car not found");
}

#[test]
fn only_the_third_segment_selects_the_id() {
    let deep = artifacts_handler("GET", "/artifacts/3/extra");
    let plain = artifacts_handler("GET", "/artifacts/3");
    assert_eq!(deep.body, plain.body);
    assert_eq!(deep.status_code, plain.status_code);
}

#[test]
fn every_lookup_matches_the_list_entry() {
    let list = artifacts_handler("GET", "/artifacts");
    let v: serde_json::Value = serde_json::from_str(&list.body).unwrap();
    let arr = v.as_array().unwrap();
    for (i, id) in ["1", "2", "3", "4"].iter().enumerate() {
        let one = artifacts_handler("GET", &format!("/artifacts/{}", id));
        assert_eq!(one.status_code, 200);
        // the lookup body is, byte for byte, the object the list carries
        assert!(list.body.contains(&one.body));
        // and its parsed fields equal the list's element for that id
        let parsed: serde_json::Value = serde_json::from_str(&one.body).unwrap();
        assert_eq!(&parsed, &arr[i]);
    }
}

#[test]
fn repeated_requests_yield_byte_identical_responses() {
    for path in ["/artifacts", "/artifacts/", "/artifacts/2", "/artifacts/99", "/nope", "/"] {
        let a = artifacts_handler("GET", path);
        let b = artifacts_handler("GET", path);
        assert_eq!(a.status_code, b.status_code);
        assert_eq!(a.content_type, b.content_type);
        assert_eq!(a.body, b.body);
    }
}
