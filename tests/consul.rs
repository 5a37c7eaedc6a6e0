use probes::consul::discovery::{Discovery, DiscoveryError, DiscoveryStep, HttpReply, ServiceNodes};
use probes::consul::json::JsonValue;
use probes::consul::{ConsulClient, ServiceNode};

fn node(service_name: &str, ip: &str, port: u16) -> ServiceNode {
    ServiceNode { service_name: service_name.to_string(), ip: ip.to_string(), port }
}

fn keyed(nodes: &ServiceNodes) -> Vec<(String, ServiceNode)> {
    let mut v = nodes.nodes.clone();
    v.sort_by(|a, b| a.0.cmp(&b.0));
    v
}

#[test]
fn service_node_to_string() {
    let node = ServiceNode {
        service_name: "service_name".to_string(),
        ip: "0.0.0.0".to_string(),
        port: 12500,
    };
    assert_eq!("service_name:0.0.0.0:12500".to_string(), node.to_string());
}

#[test]
fn get_string_value() {
    assert_eq!(
        "test".to_string(),
        ConsulClient::get_string_value(&JsonValue::String("test".to_string()))
    );
    assert_eq!("".to_string(), ConsulClient::get_string_value(&JsonValue::Null));
}

#[test]
fn is_matching_service() {
    assert!(ConsulClient::is_matching_service(
        &"elasticsearch".to_string(),
        Some(&vec![
            JsonValue::String("elasticsearch".to_string()),
            JsonValue::String("http".to_string()),
        ]),
    ));
    assert!(!ConsulClient::is_matching_service(
        &"elasticsearch".to_string(),
        Some(&vec![
            JsonValue::String("memcached".to_string()),
            JsonValue::String("tcp".to_string()),
        ]),
    ));
    assert!(!ConsulClient::is_matching_service(&"elasticsearch".to_string(), None,));
}

#[test]
fn extract_matching_services() {
    let body_json = JsonValue::parse("{\"youfollow-yourequest-admin\":[\"netcore\",\"73c7b23f2ce611ecb9d488e9a4060640\",\"admin-handler-api\",\
    \"default\",\"http\",\"marathon\",\"marathon-start-20211014T120126Z\",\"marathon-user-svc-youfollow\"],\
    \"elasticsearch-secauditlogs-https\":[\"https\",\"elasticsearch\",\"master\",\"data\",\"cluster_name-secauditlogs\",\"version-7.7.1\",\"maintenance-elasticsearch\",\"nosql\"],\
    \"elasticsearch-shared\":[\"nosql\",\"data\",\"cluster_name-shared-s01\",\"version-6.8.10\",\"\",\"https\",\"elasticsearch\",\"master\",\"maintenance-elasticsearch\"]}");
    assert_eq!(
        vec!["elasticsearch-secauditlogs-https", "elasticsearch-shared"],
        ConsulClient::extract_matching_services(&"maintenance-elasticsearch".to_string(), body_json,)
    );

    let empty: Vec<String> = Vec::new();
    // Empty json for list of services
    assert_eq!(
        empty,
        ConsulClient::extract_matching_services(
            &"maintenance-elasticsearch".to_string(),
            JsonValue::parse("{}"),
        )
    );
}

#[test]
fn get_watch_index() {
    assert_eq!(5, ConsulClient::get_watch_index(1, 5));
    assert_eq!(0, ConsulClient::get_watch_index(5, 1));
    assert_eq!(0, ConsulClient::get_watch_index(1, -5));
}

#[test]
fn get_service_address_port() {
    let node_value = JsonValue::parse("{\"ServiceAddress\":\"127.0.0.1\",\"ServicePort\":1045}");
    assert_eq!(
        ServiceNode {
            service_name: "service_test".to_string(),
            ip: "127.0.0.1".to_string(),
            port: 1045,
        },
        ConsulClient::get_service_address_port("service_test", &node_value)
    );
}

#[test]
fn extract_nodes() {
    let nodes_value = JsonValue::parse("[{\"ServiceAddress\":\"127.0.0.1\",\"ServicePort\":1045}, {\"ServiceAddress\":\"127.0.0.2\",\"ServicePort\":1045}]");
    let nodes = vec![
        ServiceNode {
            service_name: "service_test".to_string(),
            ip: "127.0.0.1".to_string(),
            port: 1045,
        },
        ServiceNode {
            service_name: "service_test".to_string(),
            ip: "127.0.0.2".to_string(),
            port: 1045,
        },
    ];
    assert_eq!(nodes, ConsulClient::extract_nodes("service_test".to_string(), nodes_value));

    let nodes_value = JsonValue::parse("[]");
    let empty: Vec<ServiceNode> = Vec::new();
    assert_eq!(empty, ConsulClient::extract_nodes("service_test".to_string(), nodes_value));

    let nodes_value = JsonValue::parse("{}");
    assert_eq!(empty, ConsulClient::extract_nodes("service_test".to_string(), nodes_value));
}

fn answered(index: Option<i64>, body: &str) -> HttpReply {
    HttpReply::Answered { status: 200, index, body: body.to_string() }
}

/// Runs a discovery round against canned registry answers, keyed by URI.
fn run_round(prev_index: i64, tag: &str, answer: impl Fn(&str) -> HttpReply) -> (Vec<String>, Result<ServiceNodes, DiscoveryError>) {
    let client = ConsulClient::new("http://registry:8500".to_string());
    let (mut round, mut uri) = Discovery::start(&client, prev_index, tag);
    let mut queried = Vec::new();
    loop {
        queried.push(uri.clone());
        match round.on_reply(answer(&uri)) {
            DiscoveryStep::Query(next) => uri = next,
            DiscoveryStep::Done(nodes) => return (queried, Ok(nodes)),
            DiscoveryStep::Failed(e) => return (queried, Err(e)),
        }
    }
}

fn registry(uri: &str) -> HttpReply {
    if uri.starts_with("http://registry:8500/v1/catalog/services?") {
        answered(
            Some(110),
            "{\"other\":[\"net\",\"4578\"], \"memcached-1\":[\"memcached\",\"4578\"]}",
        )
    } else if uri == "http://registry:8500/v1/catalog/service/memcached-1?index=0&wait=5m" {
        answered(
            None,
            "[{\"ServiceAddress\":\"1.2.2.15\",\"ServicePort\":11213},{\"ServiceAddress\":\"1.2.2.16\",\"ServicePort\":11213}]",
        )
    } else {
        HttpReply::Answered { status: 404, index: None, body: String::new() }
    }
}

#[test]
fn list_matching_nodes() {
    let (queried, res) = run_round(1, "memcached", registry);
    assert_eq!(
        queried,
        vec![
            "http://registry:8500/v1/catalog/services?index=1&wait=5m".to_string(),
            "http://registry:8500/v1/catalog/service/memcached-1?index=0&wait=5m".to_string(),
        ]
    );
    let res = res.unwrap();
    assert_eq!(res.index, 110);
    assert_eq!(
        keyed(&res),
        vec![
            ("memcached-1:1.2.2.15:11213".to_string(), node("memcached-1", "1.2.2.15", 11213)),
            ("memcached-1:1.2.2.16:11213".to_string(), node("memcached-1", "1.2.2.16", 11213)),
        ]
    );
}

#[test]
fn list_nodes_for_service() {
    let (_, res) = run_round(0, "memcached", registry);
    let res = res.unwrap();
    assert_eq!(res.nodes.len(), 2);

    // A service body that does not parse holds no node.
    let (_, res) = run_round(0, "memcached", |uri: &str| {
        if uri.contains("/v1/catalog/services?") {
            answered(Some(3), "{\"memcached-1\":[\"memcached\"]}")
        } else {
            answered(
                None,
                "[{\"ServiceAddress\":\"1.2.2.15\",\"ServicePort\":11213},{\"ServiceAddress\":\"1.2.2.16\",\"ServicePort\":11213]",
            )
        }
    });
    let res = res.unwrap();
    assert_eq!(res.index, 3);
    assert!(res.nodes.is_empty());
}

#[test]
fn catalog_matching_picks_tagged_services() {
    let catalog = JsonValue::parse("{\"svcA\":[\"http\"],\"svcB\":[\"tagX\",\"nosql\"]}");
    assert_eq!(ConsulClient::extract_matching_services("nosql", catalog), vec!["svcB".to_string()]);
}

#[test]
fn non_object_catalog_has_no_services() {
    assert!(ConsulClient::extract_matching_services("x", JsonValue::parse("[\"x\"]")).is_empty());
    assert!(ConsulClient::extract_matching_services("x", JsonValue::parse("not json")).is_empty());
    assert!(!ConsulClient::is_matching_service("x", Some(&vec![JsonValue::Number(Some(1))])));
    // A tag that is not a string reads as the empty tag.
    assert!(ConsulClient::is_matching_service("", Some(&vec![JsonValue::Number(Some(1))])));
}

#[test]
fn cursor_resets() {
    assert_eq!(ConsulClient::get_watch_index(20, 10), 0);
    assert_eq!(ConsulClient::get_watch_index(-3, -1), 0);
    assert_eq!(ConsulClient::get_watch_index(0, -7), 0);
    assert_eq!(ConsulClient::get_watch_index(7, 7), 7);
}

#[test]
fn parsed_json_shape() {
    assert_eq!(
        JsonValue::parse("{\"a\":[1,-2,true,null,\"s\"]}"),
        JsonValue::Object(vec![(
            "a".to_string(),
            JsonValue::Array(vec![
                JsonValue::Number(Some(1)),
                JsonValue::Number(None),
                JsonValue::Bool(true),
                JsonValue::Null,
                JsonValue::String("s".to_string()),
            ])
        )])
    );
}

#[test]
fn port_out_of_range_is_malformed() {
    let v = JsonValue::parse("[{\"ServiceAddress\":\"h\",\"ServicePort\":70000}]");
    assert!(!ConsulClient::is_well_formed(&v));
    let v = JsonValue::parse("[{\"ServiceAddress\":\"h\",\"ServicePort\":65535}]");
    assert!(ConsulClient::is_well_formed(&v));
}

#[test]
fn malformed_node_fails_the_round() {
    assert!(!ConsulClient::is_well_formed(&JsonValue::parse("[{\"ServiceAddress\":\"h\"}]")));
    assert!(ConsulClient::is_well_formed(&JsonValue::parse("{}")));
    let (_, res) = run_round(0, "t", |uri: &str| {
        if uri.contains("/v1/catalog/services?") {
            answered(Some(3), "{\"a\":[\"t\"]}")
        } else {
            answered(None, "[{\"ServiceAddress\":\"h\"}]")
        }
    });
    match res {
        Err(DiscoveryError::MalformedNodes { service }) => assert_eq!(service, "a"),
        _ => panic!("expected a malformed node error"),
    }
}

#[test]
fn failed_sub_query_fails_the_round() {
    let (queried, res) = run_round(5, "t", |uri: &str| {
        if uri.contains("/v1/catalog/services?") {
            answered(Some(9), "{\"a\":[\"t\"],\"b\":[\"t\"]}")
        } else if uri.contains("/service/a?") {
            answered(None, "[{\"ServiceAddress\":\"h\",\"ServicePort\":1}]")
        } else {
            HttpReply::Answered { status: 500, index: None, body: String::new() }
        }
    });
    assert_eq!(queried.len(), 3);
    match res {
        Err(DiscoveryError::QueryFailed { uri, status }) => {
            assert_eq!(uri, "http://registry:8500/v1/catalog/service/b?index=0&wait=5m");
            assert_eq!(status, 500);
        }
        _ => panic!("expected a query failure"),
    }
}

#[test]
fn unreachable_registry_fails_the_round() {
    let (queried, res) = run_round(-4, "t", |_: &str| HttpReply::Unreachable { reason: "refused".to_string() });
    assert_eq!(queried, vec!["http://registry:8500/v1/catalog/services?index=-4&wait=5m".to_string()]);
    match res {
        Err(DiscoveryError::Unreachable { uri, reason }) => {
            assert_eq!(uri, queried[0]);
            assert_eq!(reason, "refused");
        }
        _ => panic!("expected an unreachable registry"),
    }
}

#[test]
fn missing_or_lower_cursor_header_gives_zero() {
    let (_, res) = run_round(50, "t", |_: &str| answered(None, "{}"));
    assert_eq!(res.unwrap().index, 0);
    let (_, res) = run_round(50, "t", |_: &str| answered(Some(40), "{}"));
    assert_eq!(res.unwrap().index, 0);
    let (_, res) = run_round(50, "t", |_: &str| answered(Some(60), "{}"));
    assert_eq!(res.unwrap().index, 60);
}

#[test]
fn same_key_from_two_services_is_kept_once() {
    let (_, res) = run_round(0, "t", |uri: &str| {
        if uri.contains("/v1/catalog/services?") {
            answered(Some(1), "{\"a\":[\"t\"]}")
        } else {
            answered(None, "[{\"ServiceAddress\":\"h\",\"ServicePort\":1},{\"ServiceAddress\":\"h\",\"ServicePort\":1}]")
        }
    });
    let res = res.unwrap();
    assert_eq!(keyed(&res), vec![("a:h:1".to_string(), node("a", "h", 1))]);
}
