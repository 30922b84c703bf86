use layer_tool::docker::{DockerClient, DockerError};
use layer_tool::json::Json;
use layer_tool::locator::{
    LocatorAction, LocatorEvent, LocatorState, PathField, PathProbe, Strategy,
};
use layer_tool::types::Timestamp;

fn text(s: &str) -> Json {
    Json::Text(s.to_string())
}

fn object(members: Vec<(&str, Json)>) -> Json {
    Json::Object(members.into_iter().map(|(k, v)| (k.to_string(), v)).collect())
}

fn container() -> Vec<(&'static str, Json)> {
    vec![
        ("Id", text("0123abcd")),
        ("Name", text("/web")),
        ("Image", text("sha256:feed")),
        ("Created", text("2024-01-02T03:04:05.5+01:00")),
        (
            "Config",
            object(vec![
                ("Image", text("nginx:latest")),
                (
                    "Labels",
                    object(vec![("a", text("1")), ("n", Json::Number(Some(3))), ("b", text("2"))]),
                ),
            ]),
        ),
        ("State", object(vec![("Status", text("running")), ("StartedAt", text("2024-01-02T03:04:06Z"))])),
        (
            "Mounts",
            Json::Array(vec![
                object(vec![
                    ("Source", text("/src")),
                    ("Destination", text("/dst")),
                    ("Mode", text("rw")),
                    ("RW", Json::Bool(true)),
                    ("Propagation", text("rprivate")),
                ]),
                object(vec![("Source", text("/only"))]),
                object(vec![("Source", text("/s")), ("Destination", text("/d")), ("Mode", text(""))]),
            ]),
        ),
    ]
}

fn without(key: &str) -> Json {
    object(container().into_iter().filter(|(k, _)| *k != key).collect())
}

#[test]
fn a_description_of_a_container_is_read() {
    let m = DockerClient::new().parse_container_metadata(&object(container())).unwrap();
    assert_eq!(m.id, "0123abcd");
    assert_eq!(m.name, "web");
    assert_eq!(m.image, "nginx:latest");
    assert_eq!(m.image_id, "sha256:feed");
    assert_eq!(m.image_sha256, "sha256:feed");
    assert_eq!(m.created, Timestamp { secs: 1704161045, nanos: 500_000_000 });
    assert_eq!(m.state, "running");
    assert_eq!(m.status, "running 2024-01-02T03:04:06Z");
    assert_eq!(m.labels, vec![("a".to_string(), "1".to_string()), ("b".to_string(), "2".to_string())]);
    assert_eq!(m.mounts.len(), 2);
    assert_eq!(m.mounts[0].source, "/src");
    assert_eq!(m.mounts[0].destination, "/dst");
    assert_eq!(m.mounts[0].mode, "rw");
    assert!(m.mounts[0].rw);
    assert_eq!(m.mounts[0].propagation, "rprivate");
    assert_eq!(m.mounts[1].source, "/s");
    assert!(!m.mounts[1].rw);
    assert_eq!(m.mounts[1].propagation, "");
}

#[test]
fn of_a_label_that_stands_twice_the_last_is_kept() {
    let labels = object(vec![
        ("a", text("1")),
        ("b", text("2")),
        ("a", Json::Bool(true)),
        ("a", text("3")),
        ("c", text("4")),
        ("b", Json::Null),
    ]);
    let described = object(vec![
        ("Id", text("0123abcd")),
        ("Image", text("sha256:feed")),
        ("Created", text("2024-01-02T03:04:05Z")),
        ("Config", object(vec![("Image", text("nginx:latest")), ("Labels", labels)])),
    ]);
    let m = DockerClient::new().parse_container_metadata(&described).unwrap();
    assert_eq!(
        m.labels,
        vec![
            ("b".to_string(), "2".to_string()),
            ("a".to_string(), "3".to_string()),
            ("c".to_string(), "4".to_string()),
        ]
    );
}

#[test]
fn a_description_without_state_name_labels_or_mounts_is_read() {
    let c = object(vec![
        ("Id", text("x")),
        ("Image", text("feed")),
        ("Created", text("1970-01-01T00:00:00Z")),
        ("Config", object(vec![("Image", text("img"))])),
    ]);
    let m = DockerClient::new().parse_container_metadata(&c).unwrap();
    assert_eq!(m.name, "");
    assert_eq!(m.image_sha256, "sha256:feed");
    assert_eq!(m.created, Timestamp { secs: 0, nanos: 0 });
    assert_eq!(m.state, "unknown");
    assert_eq!(m.status, "unknown ");
    assert!(m.labels.is_empty());
    assert!(m.mounts.is_empty());
}

#[test]
fn a_description_that_lacks_a_field_is_refused() {
    let client = DockerClient::new();
    assert!(matches!(client.parse_container_metadata(&without("Id")), Err(DockerError::MissingId)));
    assert!(matches!(client.parse_container_metadata(&without("Config")), Err(DockerError::MissingImage)));
    assert!(matches!(client.parse_container_metadata(&without("Image")), Err(DockerError::MissingImageId)));
    assert!(matches!(client.parse_container_metadata(&without("Created")), Err(DockerError::MissingCreated)));
    assert!(matches!(client.parse_container_metadata(&Json::Null), Err(DockerError::MissingId)));
    let mut wrong = container();
    wrong[0] = ("Id", Json::Number(Some(7)));
    assert!(matches!(client.parse_container_metadata(&object(wrong)), Err(DockerError::MissingId)));
}

#[test]
fn a_time_of_creation_that_is_no_time_is_refused() {
    let mut c = container();
    c[3] = ("Created", text("yesterday"));
    match DockerClient::new().parse_container_metadata(&object(c)) {
        Err(DockerError::InvalidCreated(t)) => assert_eq!(t, "yesterday"),
        other => panic!("{:?}", other),
    }
}

const INSPECTED: &str = r#"[
  {
    "Id": "0123abcd",
    "Created": "2024-01-02T03:04:05.5+01:00",
    "State": { "Status": "exited", "Running": false, "ExitCode": 0, "StartedAt": "2024-01-02T03:04:06Z" },
    "Image": "sha256:feed",
    "Name": "/web",
    "GraphDriver": {
      "Data": {
        "LowerDir": "/var/lib/docker/overlay2/low-init/diff:/var/lib/docker/overlay2/base/diff",
        "MergedDir": "/var/lib/docker/overlay2/top/merged",
        "Note": "/var/lib/docker/overlay2/other/x",
        "SomePath": "/mnt/overlay2/deep",
        "WorkDir": null,
        "DataPath": "/elsewhere/overlay/x"
      },
      "Name": "overlay2"
    },
    "Mounts": [ { "Type": "bind", "Source": "/src", "Destination": "/dst", "Mode": "", "RW": true, "Propagation": "rprivate" } ],
    "Config": { "Image": "nginx:latest", "Labels": { "maintainer": "someone", "b.a": "2" } }
  },
  { "Id": "second" }
]"#;

#[test]
fn an_answer_to_an_inspection_is_read() {
    let m = DockerClient::new().get_container_metadata("web", INSPECTED).unwrap();
    assert_eq!(m.id, "0123abcd");
    assert_eq!(m.name, "web");
    assert_eq!(m.image, "nginx:latest");
    assert_eq!(m.image_sha256, "sha256:feed");
    assert_eq!(m.created, Timestamp { secs: 1704161045, nanos: 500_000_000 });
    assert_eq!(m.state, "exited");
    assert_eq!(m.status, "exited 2024-01-02T03:04:06Z");
    let mut labels = m.labels.clone();
    labels.sort();
    assert_eq!(
        labels,
        vec![("b.a".to_string(), "2".to_string()), ("maintainer".to_string(), "someone".to_string())]
    );
    assert_eq!(m.mounts.len(), 1);
    assert!(m.mounts[0].rw);
}

#[test]
fn an_empty_answer_to_an_inspection_means_no_such_container() {
    let client = DockerClient::new();
    match client.get_container_metadata("web", "[]") {
        Err(DockerError::ContainerNotFound(id)) => assert_eq!(id, "web"),
        other => panic!("{:?}", other),
    }
    assert!(matches!(client.get_container_metadata("web", "[{}]"), Err(DockerError::MissingId)));
}

#[test]
fn an_answer_that_is_not_the_json_asked_for_is_refused() {
    let client = DockerClient::new();
    for answer in ["", "Error: No such object: web", "{\"Id\": \"x\"}", "[1, 2", "null"] {
        assert!(matches!(client.get_container_metadata("web", answer), Err(DockerError::InvalidAnswer)));
    }
    let now = Timestamp { secs: 0, nanos: 0 };
    assert!(matches!(client.get_docker_info("Cannot connect to the Docker daemon", now), Err(DockerError::InvalidAnswer)));
    assert!(matches!(client.get_docker_info("", now), Err(DockerError::InvalidAnswer)));
}

#[test]
fn a_json_text_is_parsed_into_a_document() {
    assert!(matches!(Json::parse("null"), Some(Json::Null)));
    assert!(matches!(Json::parse(" true "), Some(Json::Bool(true))));
    assert!(matches!(Json::parse("18446744073709551615"), Some(Json::Number(Some(u64::MAX)))));
    assert!(matches!(Json::parse("0"), Some(Json::Number(Some(0)))));
    assert!(matches!(Json::parse("-1"), Some(Json::Number(None))));
    assert!(matches!(Json::parse("1.5"), Some(Json::Number(None))));
    assert!(matches!(Json::parse("\"a\\u00e9\\n\""), Some(Json::Text(t)) if t == "a\u{e9}\n"));
    match Json::parse("[1, [], {\"k\": [false]}]") {
        Some(Json::Array(elements)) => {
            assert_eq!(elements.len(), 3);
            assert!(matches!(&elements[1], Json::Array(inner) if inner.is_empty()));
            match &elements[2] {
                Json::Object(members) => {
                    assert_eq!(members.len(), 1);
                    assert_eq!(members[0].0, "k");
                    assert!(matches!(&members[0].1, Json::Array(inner) if matches!(inner[0], Json::Bool(false))));
                }
                other => panic!("{:?}", other),
            }
        }
        other => panic!("{:?}", other),
    }
    let object = Json::parse("{\"b\": 1, \"a\": \"x\", \"b\": 2}").unwrap();
    assert_eq!(object.u64_at("b"), 2);
    assert_eq!(object.text_at("a"), Some("x"));
    for text in ["", "{", "[1,]", "nul", "{\"a\" 1}", "1 2", "'a'"] {
        assert!(Json::parse(text).is_none(), "{:?}", text);
    }
}

#[test]
fn of_two_members_of_one_name_the_last_is_read() {
    let c = object(vec![("a", text("first")), ("b", text("x")), ("a", text("second"))]);
    assert_eq!(c.text_at("a"), Some("second"));
    assert_eq!(c.text_at("b"), Some("x"));
    assert_eq!(c.text_at("c"), None);
    assert!(c.get("c").is_none());
    assert!(Json::Array(vec![]).get("a").is_none());
    assert_eq!(c.text_or_at("c", "none"), "none");
    assert!(!c.flag_at("a"));
    assert_eq!(c.u64_at("a"), 0);
}

#[test]
fn a_description_of_the_daemon_is_read() {
    let info = object(vec![
        ("ID", text("daemon")),
        ("Containers", Json::Number(Some(12))),
        ("ContainersRunning", Json::Number(Some(4_294_967_297))),
        ("Images", Json::Number(None)),
        ("Driver", text("overlay2")),
        ("MemoryLimit", Json::Bool(true)),
        ("SwapLimit", text("yes")),
        ("OperatingSystem", text("Debian GNU/Linux 12")),
        ("OSType", text("linux")),
        ("Architecture", text("x86_64")),
        ("NCPU", Json::Number(Some(8))),
        ("MemTotal", Json::Number(Some(17_179_869_184))),
        ("ServerVersion", text("24.0.7")),
        ("Name", text("host")),
    ]);
    let now = Timestamp { secs: 1_700_000_000, nanos: 7 };
    let d = DockerClient::new().parse_docker_info(&info, now).unwrap();
    assert_eq!(d.id, "daemon");
    assert_eq!(d.containers, 12);
    assert_eq!(d.containers_running, 1);
    assert_eq!(d.containers_paused, 0);
    assert_eq!(d.images, 0);
    assert_eq!(d.driver, "overlay2");
    assert!(d.memory_limit);
    assert!(!d.swap_limit);
    assert!(!d.debug);
    assert_eq!(d.operating_system, "Debian GNU/Linux 12");
    assert_eq!(d.os_type, "linux");
    assert_eq!(d.architecture, "x86_64");
    assert_eq!(d.ncpu, 8);
    assert_eq!(d.mem_total, 17_179_869_184);
    assert_eq!(d.server_version, "24.0.7");
    assert_eq!(d.name, "host");
    assert_eq!(d.system_time, now);
    assert_eq!(d.kernel_version, "");
    assert!(d.driver_status.is_empty());
    assert!(d.system_status.is_none());
    assert!(d.runtimes.is_empty());
    assert!(d.swarm.cluster.is_none());
    assert_eq!(d.swarm.node_id, "");
    assert_eq!(d.runc_commit.id, "");
    assert!(d.security_options.is_empty());
    let blank = DockerClient::new().get_docker_info("null", now).unwrap();
    assert_eq!(blank.driver, "");
    assert_eq!(blank.architecture, "");
    assert_eq!(blank.containers, 0);
    let read = DockerClient::new()
        .get_docker_info(
            "{\"Driver\":\"overlay2\",\"Architecture\":\"aarch64\",\"Containers\":3,\"NCPU\":-2,\"MemTotal\":1.5e3}",
            now,
        )
        .unwrap();
    assert_eq!(read.driver, "overlay2");
    assert_eq!(read.architecture, "aarch64");
    assert_eq!(read.containers, 3);
    assert_eq!(read.ncpu, 0);
    assert_eq!(read.mem_total, 0);
    assert_eq!(read.system_time, now);
}

#[test]
fn a_container_that_is_being_removed_or_dead_is_refused() {
    let client = DockerClient::new();
    for state in ["removing", "dead", "Removing", "DEAD"] {
        match client.validate_container_for_layer_operations("web", true, state, "overlay2") {
            Err(DockerError::InvalidState(s)) => assert_eq!(s, state),
            other => panic!("{:?}", other),
        }
    }
    for state in ["running", "exited", "created", "paused", "", "deadly"] {
        assert!(matches!(
            client.validate_container_for_layer_operations("web", true, state, "overlay2"),
            Ok(false)
        ));
    }
}

#[test]
fn the_state_of_a_container_is_checked_by_itself() {
    let client = DockerClient::new();
    assert!(client.check_container_state("web", true, "running").is_ok());
    assert!(matches!(client.check_container_state("web", true, "dead"), Err(DockerError::InvalidState(_))));
    assert!(matches!(
        client.check_container_state("web", false, "running"),
        Err(DockerError::ContainerNotFound(_))
    ));
}

#[test]
fn a_state_is_refused_where_its_lower_case_is_a_refused_word() {
    let client = DockerClient::new();
    let states = [
        "dead", "Dead", "DEAD", "dEaD", "removing", "Removing", "REMOVING", "running", "exited",
        "paused", "created", "restarting", "", "dead ", " dead", "deadx", "remov\u{131}ng",
        "REMOV\u{130}NG", "d\u{c9}ad", "removin", "dea",
    ];
    for state in states {
        let lower = state.to_lowercase();
        let refused = lower == "dead" || lower == "removing";
        assert_eq!(client.check_container_state("web", true, state).is_err(), refused, "{:?}", state);
    }
}

#[test]
fn a_container_that_is_not_there_is_refused() {
    match DockerClient::new().validate_container_for_layer_operations("web", false, "running", "overlay2") {
        Err(DockerError::ContainerNotFound(id)) => assert_eq!(id, "web"),
        other => panic!("{:?}", other),
    }
}

#[test]
fn another_storage_driver_is_warned_of_and_allowed() {
    let client = DockerClient::new();
    assert!(matches!(client.validate_container_for_layer_operations("web", true, "running", "aufs"), Ok(true)));
    assert!(matches!(client.validate_container_for_layer_operations("web", true, "running", "Overlay2"), Ok(true)));
    assert!(matches!(client.validate_container_for_layer_operations("web", true, "running", "overlay2"), Ok(false)));
}

#[test]
fn the_directory_that_the_daemon_names_is_taken() {
    let client = DockerClient::new();
    assert_eq!(
        client.get_upper_layer_path_direct("/var/lib/docker/overlay2/abc/diff\n").unwrap(),
        "/var/lib/docker/overlay2/abc/diff"
    );
    assert!(matches!(client.get_upper_layer_path_direct(" \n"), Err(DockerError::UpperDirUnavailable)));
    assert!(matches!(client.get_upper_layer_path_direct("<no value>\n"), Err(DockerError::UpperDirUnavailable)));
}

#[test]
fn the_directory_beside_the_merged_one_is_taken() {
    let client = DockerClient::new();
    assert_eq!(
        client.get_container_layer_path("/var/lib/docker/overlay2/abc/merged\n").unwrap(),
        "/var/lib/docker/overlay2/abc"
    );
    assert_eq!(
        client.get_upper_layer_path_traditional("/var/lib/docker/overlay2/abc/merged\n").unwrap(),
        "/var/lib/docker/overlay2/abc/upper"
    );
    assert_eq!(client.get_upper_layer_path_traditional("/merged").unwrap(), "/upper");
    assert_eq!(client.get_upper_layer_path_traditional("layers/x/merged").unwrap(), "layers/x/upper");
    assert!(matches!(client.get_container_layer_path("\n"), Err(DockerError::EmptyLayerPath)));
    assert!(matches!(client.get_container_layer_path("<no value>\n"), Err(DockerError::EmptyLayerPath)));
    assert!(matches!(
        client.get_upper_layer_path_traditional("<no value>\n"),
        Err(DockerError::EmptyLayerPath)
    ));
    match client.get_upper_layer_path_traditional("merged") {
        Err(DockerError::InvalidLayerPath(p)) => assert_eq!(p, "merged"),
        other => panic!("{:?}", other),
    }
    match client.get_upper_layer_path_traditional(" / ") {
        Err(DockerError::InvalidLayerPath(p)) => assert_eq!(p, "/"),
        other => panic!("{:?}", other),
    }
}

#[test]
fn the_name_of_the_layer_is_read_out_of_a_path() {
    let client = DockerClient::new();
    assert_eq!(
        client.extract_layer_id_from_path("/var/lib/docker/overlay2/abc123/merged"),
        Some("abc123".to_string())
    );
    assert_eq!(client.extract_layer_id_from_path("/var/lib/docker/overlay2/abc123"), Some("abc123".to_string()));
    assert_eq!(client.extract_layer_id_from_path("/overlay2//x"), Some("".to_string()));
    assert_eq!(client.extract_layer_id_from_path("/overlay2/"), Some("".to_string()));
    assert_eq!(client.extract_layer_id_from_path("/a/overlay2/b/overlay2/c"), Some("b".to_string()));
    assert_eq!(client.extract_layer_id_from_path("/var/lib/docker/overlay/abc"), None);
    assert_eq!(client.extract_layer_id_from_path("overlay2/abc"), None);
}

const GRAPH_DRIVER: &str = r#"{"Name": "overlay2", "Data": {
    "LowerDir": "/var/lib/docker/overlay2/low-init/diff:/var/lib/docker/overlay2/base/diff",
    "MergedDir": "/var/lib/docker/overlay2/top/merged",
    "Note": "/var/lib/docker/overlay2/other/x",
    "SomePath": "/mnt/overlay2/deep",
    "WorkDir": null,
    "DataPath": "/elsewhere/overlay/x"}}"#;

fn graph_driver() -> Json {
    object(vec![
        ("Name", text("overlay2")),
        (
            "Data",
            object(vec![
                ("LowerDir", text("/var/lib/docker/overlay2/low-init/diff:/var/lib/docker/overlay2/base/diff")),
                ("MergedDir", text("/var/lib/docker/overlay2/top/merged")),
                ("Note", text("/var/lib/docker/overlay2/other/x")),
                ("WorkDir", Json::Null),
                ("DataPath", text("/elsewhere/overlay/x")),
                ("SomePath", text("/mnt/overlay2/deep")),
            ]),
        ),
    ])
}

#[test]
fn the_directories_that_the_driver_points_to_are_made_up() {
    let client = DockerClient::new();
    assert_eq!(
        client.inspection_candidates(&graph_driver()),
        vec![
            "/var/lib/docker/overlay2/low-init/upper",
            "/var/lib/docker/overlay2/top/upper",
            "/var/lib/docker/overlay2/deep/upper",
        ]
    );
    assert!(client.inspection_candidates(&Json::Null).is_empty());
    assert!(client.inspection_candidates(&object(vec![("Data", text("x"))])).is_empty());
}

#[test]
fn the_first_directory_that_is_there_is_taken() {
    let client = DockerClient::new();
    let candidates = vec!["/a".to_string(), "/b".to_string(), "/c".to_string()];
    assert_eq!(client.get_upper_layer_path_by_inspection(&candidates, &vec![false, true, true]).unwrap(), "/b");
    assert_eq!(client.get_upper_layer_path_by_inspection(&candidates, &vec![true]).unwrap(), "/a");
    assert!(matches!(
        client.get_upper_layer_path_by_inspection(&candidates, &vec![false, false, false]),
        Err(DockerError::InspectionFailed)
    ));
    assert!(matches!(
        client.get_upper_layer_path_by_inspection(&candidates, &vec![false]),
        Err(DockerError::InspectionFailed)
    ));
    assert!(matches!(
        client.get_upper_layer_path_by_inspection(&vec![], &vec![true]),
        Err(DockerError::InspectionFailed)
    ));
}

#[test]
fn the_search_ends_with_the_first_way_that_gives_a_directory() {
    let client = DockerClient::new();
    let (state, action) = client.get_upper_layer_path(LocatorState::Start, LocatorEvent::Begin);
    assert!(matches!(state, LocatorState::AskedUpperDir));
    assert!(matches!(action, LocatorAction::QueryUpperDir));
    let (state, action) =
        client.get_upper_layer_path(state, LocatorEvent::Text(Some("/layers/x/diff\n".to_string())));
    assert!(matches!(state, LocatorState::Finished));
    match action {
        LocatorAction::Found(path, strategy) => {
            assert_eq!(path, "/layers/x/diff");
            assert_eq!(strategy, Strategy::Direct);
        }
        other => panic!("{:?}", other),
    }
}

#[test]
fn the_search_goes_on_to_the_next_way_when_one_fails() {
    let client = DockerClient::new();
    let (state, _) = client.get_upper_layer_path(LocatorState::Start, LocatorEvent::Begin);
    let (state, action) =
        client.get_upper_layer_path(state, LocatorEvent::Text(Some("<no value>\n".to_string())));
    assert!(matches!(state, LocatorState::AskedMergedDir));
    assert!(matches!(action, LocatorAction::QueryMergedDir));
    // a merged directory that is not there does not stand for a path either
    let (next, action) = client.get_upper_layer_path(
        LocatorState::AskedMergedDir,
        LocatorEvent::Text(Some("<no value>\n".to_string())),
    );
    assert!(matches!(next, LocatorState::AskedGraphDriver));
    assert!(matches!(action, LocatorAction::QueryGraphDriver));
    let (state, action) =
        client.get_upper_layer_path(state, LocatorEvent::Text(Some("/layers/x/merged\n".to_string())));
    assert!(matches!(state, LocatorState::Finished));
    match action {
        LocatorAction::Found(path, strategy) => {
            assert_eq!(path, "/layers/x/upper");
            assert_eq!(strategy, Strategy::Derived);
        }
        other => panic!("{:?}", other),
    }
}

#[test]
fn the_search_infers_the_directory_from_the_data_of_the_driver() {
    let client = DockerClient::new();
    let (state, action) = client.get_upper_layer_path(LocatorState::AskedUpperDir, LocatorEvent::Text(None));
    assert!(matches!(action, LocatorAction::QueryMergedDir));
    let (state, action) = client.get_upper_layer_path(state, LocatorEvent::Text(Some("".to_string())));
    assert!(matches!(state, LocatorState::AskedGraphDriver));
    assert!(matches!(action, LocatorAction::QueryGraphDriver));
    let (state, action) =
        client.get_upper_layer_path(state, LocatorEvent::Text(Some(GRAPH_DRIVER.to_string())));
    match &action {
        LocatorAction::Probe(paths) => assert_eq!(paths.len(), 3),
        other => panic!("{:?}", other),
    }
    let (state, action) =
        client.get_upper_layer_path(state, LocatorEvent::Probed(vec![false, false, true]));
    assert!(matches!(state, LocatorState::Finished));
    match action {
        LocatorAction::Found(path, strategy) => {
            assert_eq!(path, "/var/lib/docker/overlay2/deep/upper");
            assert_eq!(strategy, Strategy::Inferred);
        }
        other => panic!("{:?}", other),
    }
}

#[test]
fn the_search_ends_in_a_diagnosis_when_every_way_fails() {
    let client = DockerClient::new();
    let (state, _) = client.get_upper_layer_path(LocatorState::AskedUpperDir, LocatorEvent::Text(None));
    let (state, _) = client.get_upper_layer_path(state, LocatorEvent::Text(None));
    let (state, action) = client.get_upper_layer_path(state, LocatorEvent::Text(None));
    assert!(matches!(state, LocatorState::Finished));
    assert!(matches!(action, LocatorAction::Diagnose));
    let (state, action) = client.get_upper_layer_path(
        LocatorState::AskedGraphDriver,
        LocatorEvent::Text(Some("<no value>".to_string())),
    );
    assert!(matches!(state, LocatorState::Finished));
    assert!(matches!(action, LocatorAction::Diagnose));
    let (state, action) =
        client.get_upper_layer_path(LocatorState::AskedGraphDriver, LocatorEvent::Text(Some("{}".to_string())));
    assert!(matches!(state, LocatorState::Probing(paths) if paths.is_empty()));
    assert!(matches!(action, LocatorAction::Probe(paths) if paths.is_empty()));
    let (state, action) = client.get_upper_layer_path(
        LocatorState::Probing(vec!["/a".to_string()]),
        LocatorEvent::Probed(vec![false]),
    );
    assert!(matches!(state, LocatorState::Finished));
    assert!(matches!(action, LocatorAction::Diagnose));
    let (_, action) = client.get_upper_layer_path(LocatorState::Finished, LocatorEvent::Begin);
    assert!(matches!(action, LocatorAction::Diagnose));
}

#[test]
fn the_diagnosis_lists_what_an_operator_needs_to_see() {
    let client = DockerClient::new();
    let fields = client.layer_path_fields(INSPECTED);
    assert_eq!(fields.len(), 6);
    let keys: Vec<&str> = fields.iter().map(|f| f.key.as_str()).collect();
    assert_eq!(keys, vec!["DataPath", "LowerDir", "MergedDir", "Note", "SomePath", "WorkDir"]);
    assert_eq!(fields[2].path.as_deref(), Some("/var/lib/docker/overlay2/top/merged"));
    assert!(fields[5].path.is_none());
    assert!(client.layer_path_fields("[]").is_empty());
    assert!(client.layer_path_fields("nothing").is_empty());
    let probes = vec![
        PathProbe { exists: false, entries: Some(9) },
        PathProbe { exists: true, entries: Some(4) },
        PathProbe { exists: true, entries: None },
        PathProbe { exists: true, entries: Some(1) },
        PathProbe { exists: false, entries: None },
        PathProbe { exists: true, entries: Some(1) },
    ];
    let layers: Vec<String> = (0..7).map(|i| format!("layer{}", i)).collect();
    let failure =
        client.provide_detailed_layer_error("web", Some(INSPECTED), fields, &probes, Some("aufs"), Some(&layers));
    assert_eq!(failure.container_id, "web");
    assert_eq!(failure.fields.len(), 6);
    assert!(!failure.fields[0].exists);
    assert!(failure.fields[0].entries.is_none());
    assert!(failure.fields[1].exists);
    assert_eq!(failure.fields[1].entries, Some(4));
    assert!(failure.fields[2].exists);
    assert!(failure.fields[2].entries.is_none());
    assert!(failure.fields[3].exists);
    assert!(!failure.fields[4].exists);
    assert!(!failure.fields[5].exists);
    assert!(failure.fields[5].entries.is_none());
    assert_eq!(failure.state.as_deref(), Some("exited"));
    assert_eq!(failure.driver.as_deref(), Some("aufs"));
    assert!(failure.driver_mismatch);
    assert_eq!(failure.layers.as_ref().unwrap().len(), 5);
    assert_eq!(failure.layers.as_ref().unwrap()[4], "layer4");
    assert_eq!(failure.layers_total, 7);
    assert_eq!(
        failure.message(),
        "Container upper layer directory not found after trying all methods. Container ID: web. Please check the debugging information above."
    );
}

#[test]
fn the_diagnosis_says_what_could_not_be_found_out() {
    let client = DockerClient::new();
    let failure = client.provide_detailed_layer_error("web", None, vec![], &vec![], None, None);
    assert!(failure.fields.is_empty());
    assert!(failure.state.is_none());
    assert!(failure.driver.is_none());
    assert!(!failure.driver_mismatch);
    assert!(failure.layers.is_none());
    assert_eq!(failure.layers_total, 0);
    let few = vec!["only".to_string()];
    let failure = client.provide_detailed_layer_error(
        "web",
        Some("[{\"State\": {}}]"),
        vec![PathField { key: "k".to_string(), path: Some("/p".to_string()) }],
        &vec![],
        Some("overlay2"),
        Some(&few),
    );
    assert!(!failure.fields[0].exists);
    assert!(!failure.driver_mismatch);
    assert_eq!(failure.layers, Some(few));
    assert_eq!(failure.layers_total, 1);
}
