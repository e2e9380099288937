use bcls::compute::{Compute, ComputeConfig, ComputeError, FailingTokenSource, MockTokenSource};
use bcls::http::{FixedResponseClient, UrlResponse};
use bcls::json::{Entry, Json};

const BASE: &str = "https://compute.googleapis.com/compute/v1/projects/test-project/aggregated/instances";

fn s(v: &str) -> Json {
    Json::Str(v.to_string())
}

fn obj(entries: Vec<(&str, Json)>) -> Json {
    Json::Obj(
        entries
            .into_iter()
            .map(|(k, v)| Entry { key: k.to_string(), value: v })
            .collect(),
    )
}

fn arr(items: Vec<Json>) -> Json {
    Json::Arr(items)
}

/// A raw instance document carrying the fields the decoder requires, with
/// its machine type, CPU platform, status and one label numbered `n`.
fn instance_doc(name: &str, ip: &str, zone: &str, n: &str) -> Json {
    let labels = Json::Obj(vec![Entry {
        key: format!("key{}", n),
        value: s(&format!("value{}", n)),
    }]);
    obj(vec![
        ("name", s(name)),
        ("networkInterfaces", arr(vec![obj(vec![("networkIP", s(ip))])])),
        ("zone", s(zone)),
        ("machineType", s(&format!("machine-type{}", n))),
        ("cpuPlatform", s(&format!("cpu-platform{}", n))),
        ("status", s(&format!("status{}", n))),
        ("labels", labels),
    ])
}

fn compute_for(
    responses: Vec<(&str, Json)>,
) -> Compute<FixedResponseClient, MockTokenSource> {
    let client = FixedResponseClient {
        responses: responses
            .into_iter()
            .map(|(url, body)| UrlResponse { url: url.to_string(), body })
            .collect(),
    };
    let config = ComputeConfig {
        project: "test-project".to_string(),
        client,
        token_source: MockTokenSource {
            mock_token: "mock_token".to_string(),
        },
    };
    Compute::new(config)
}

#[test]
fn test_list_zones() {
    let c = compute_for(vec![(
        "https://compute.googleapis.com/compute/v1/projects/test-project/zones",
        obj(vec![(
            "items",
            arr(vec![
                obj(vec![("name", s("zone1"))]),
                obj(vec![("name", s("zone2"))]),
            ]),
        )]),
    )]);
    let result = c.list_zones().unwrap();
    assert_eq!(result, vec!["zone1".to_string(), "zone2".to_string()]);
}

/// A raw instance document shaped like the upstream aggregated listing:
/// full field set and two labels.
fn full_instance_doc(
    name: &str,
    ip: &str,
    zone: &str,
    machine_type: &str,
    cpu_platform: &str,
    status: &str,
    labels: Vec<(&str, &str)>,
) -> Json {
    obj(vec![
        ("name", s(name)),
        ("networkInterfaces", arr(vec![obj(vec![("networkIP", s(ip))])])),
        ("zone", s(zone)),
        ("machineType", s(machine_type)),
        ("cpuPlatform", s(cpu_platform)),
        ("status", s(status)),
        (
            "labels",
            obj(labels.into_iter().map(|(k, v)| (k, s(v))).collect()),
        ),
    ])
}

#[test]
fn test_list_instances() {
    let page = obj(vec![(
        "items",
        obj(vec![
            (
                "zone1",
                obj(vec![(
                    "instances",
                    arr(vec![
                        full_instance_doc(
                            "instance1",
                            "127.0.0.1",
                            "zone1",
                            "machine-type1",
                            "cpu-platform1",
                            "status1",
                            vec![("key1", "value1"), ("key2", "value2")],
                        ),
                        full_instance_doc(
                            "instance2",
                            "127.0.0.2",
                            "zone1",
                            "machine-type2",
                            "cpu-platform2",
                            "status2",
                            vec![("key3", "value3"), ("key4", "value4")],
                        ),
                    ]),
                )]),
            ),
            (
                "zone2",
                obj(vec![(
                    "instances",
                    arr(vec![full_instance_doc(
                        "instance3",
                        "127.0.0.3",
                        "zone2",
                        "machine-type3",
                        "cpu-platform3",
                        "status3",
                        vec![("key5", "value5"), ("key6", "value6")],
                    )]),
                )]),
            ),
        ]),
    )]);
    let c = compute_for(vec![(BASE, page)]);
    let result = c.list_all_instances().unwrap();

    assert_eq!(result.len(), 3);
    assert_eq!(result[0].name, "instance1");
    assert_eq!(result[1].name, "instance2");
    assert_eq!(result[2].name, "instance3");
}

#[test]
fn pagination_follows_token_and_keeps_page_order() {
    let page1 = obj(vec![
        (
            "items",
            obj(vec![(
                "zone1",
                obj(vec![(
                    "instances",
                    arr(vec![instance_doc("inst-a", "10.0.0.1", "zone1", "1")]),
                )]),
            )]),
        ),
        ("nextPageToken", s("abc")),
    ]);
    let page2 = obj(vec![(
        "items",
        obj(vec![(
            "zone1",
            obj(vec![(
                "instances",
                arr(vec![instance_doc("inst-b", "10.0.0.2", "zone1", "2")]),
            )]),
        )]),
    )]);
    let with_token = format!("{}?pageToken=abc", BASE);
    let c = compute_for(vec![(BASE, page1), (&with_token, page2)]);
    let result = c.list_all_instances().unwrap();

    assert_eq!(result.len(), 2);
    assert_eq!(result[0].name, "inst-a");
    assert_eq!(result[1].name, "inst-b");
}

#[test]
fn repeated_listings_yield_the_same_records() {
    let page = obj(vec![(
        "items",
        obj(vec![(
            "zone1",
            obj(vec![(
                "instances",
                arr(vec![instance_doc("twice", "10.0.0.8", "zone1", "1")]),
            )]),
        )]),
    )]);
    let c = compute_for(vec![(BASE, page)]);
    let first = c.list_all_instances().unwrap();
    let second = c.list_all_instances().unwrap();
    assert_eq!(first.len(), 1);
    assert_eq!(second.len(), 1);
    assert_eq!(first[0].name, second[0].name);
    assert_eq!(first[0].ip, second[0].ip);
}

#[test]
fn missing_items_is_a_transport_error() {
    let c = compute_for(vec![(BASE, obj(vec![("kind", s("compute#instanceAggregatedList"))]))]);
    let err = c.list_all_instances().unwrap_err();
    assert!(matches!(err, ComputeError::NoItems));
    assert!(err.is_transport());
    assert_eq!(err.message(), "No items in response");
}

#[test]
fn one_bad_record_fails_the_whole_listing() {
    let broken = obj(vec![
        ("name", s("instance2")),
        ("networkInterfaces", arr(vec![obj(vec![("networkIP", s("127.0.0.2"))])])),
        ("zone", s("zone1")),
        ("machineType", s("machine-type2")),
        ("cpuPlatform", s("cpu-platform2")),
    ]);
    let page = obj(vec![(
        "items",
        obj(vec![(
            "zone1",
            obj(vec![(
                "instances",
                arr(vec![
                    instance_doc("instance1", "127.0.0.1", "zone1", "1"),
                    broken,
                    instance_doc("instance3", "127.0.0.3", "zone1", "3"),
                ]),
            )]),
        )]),
    )]);
    let c = compute_for(vec![(BASE, page)]);
    let err = c.list_all_instances().unwrap_err();
    assert!(matches!(err, ComputeError::Parse));
    assert!(!err.is_transport());
    assert_eq!(err.message(), "Error parsing instances");
}

#[test]
fn credential_failure_aborts_before_any_fetch() {
    let client = FixedResponseClient { responses: vec![] };
    let config = ComputeConfig {
        project: "test-project".to_string(),
        client,
        token_source: FailingTokenSource {
            message: "no credentials".to_string(),
        },
    };
    let c = Compute::new(config);
    let err = c.list_all_instances().unwrap_err();
    match err {
        ComputeError::Credential(m) => assert_eq!(m, "no credentials"),
        other => panic!("expected a credential error, got {:?}", other),
    }
}

#[test]
fn transport_failure_is_propagated() {
    let c = compute_for(vec![]);
    let err = c.list_all_instances().unwrap_err();
    match err {
        ComputeError::Transport(m) => assert_eq!(m, "no response for url"),
        other => panic!("expected a transport error, got {:?}", other),
    }
}

#[test]
fn name_filter_is_url_encoded_into_the_query() {
    let filtered_url = format!("{}?filter=%28name%20eq%20.%2Atest.%2A%29", BASE);
    let page = obj(vec![(
        "items",
        obj(vec![(
            "zone1",
            obj(vec![(
                "instances",
                arr(vec![instance_doc("test-1", "10.0.0.9", "zone1", "1")]),
            )]),
        )]),
    )]);
    let c = compute_for(vec![(&filtered_url, page)]);
    let result = c.list_instances("test").unwrap();
    assert_eq!(result.len(), 1);
    assert_eq!(result[0].name, "test-1");
}

#[test]
fn non_string_next_page_token_ends_the_traversal() {
    let page = obj(vec![
        (
            "items",
            obj(vec![(
                "zone1",
                obj(vec![(
                    "instances",
                    arr(vec![instance_doc("only", "10.0.0.3", "zone1", "1")]),
                )]),
            )]),
        ),
        ("nextPageToken", Json::Num("7".to_string())),
    ]);
    let c = compute_for(vec![(BASE, page)]);
    let result = c.list_all_instances().unwrap();
    assert_eq!(result.len(), 1);
}

#[test]
fn zones_without_instances_contribute_nothing() {
    let page = obj(vec![(
        "items",
        obj(vec![
            ("zone1", obj(vec![("warning", s("empty zone"))])),
            ("zone2", Json::Null),
            (
                "zone3",
                obj(vec![(
                    "instances",
                    arr(vec![instance_doc("solo", "10.0.0.4", "zone3", "1")]),
                )]),
            ),
        ]),
    )]);
    let c = compute_for(vec![(BASE, page)]);
    let result = c.list_all_instances().unwrap();
    assert_eq!(result.len(), 1);
    assert_eq!(result[0].name, "solo");
}

#[test]
fn zone_item_without_name_fails_zone_listing() {
    let c = compute_for(vec![(
        "https://compute.googleapis.com/compute/v1/projects/test-project/zones",
        obj(vec![(
            "items",
            arr(vec![obj(vec![("name", s("zone1"))]), obj(vec![("id", s("2"))])]),
        )]),
    )]);
    let err = c.list_zones().unwrap_err();
    assert!(matches!(err, ComputeError::Parse));
}
