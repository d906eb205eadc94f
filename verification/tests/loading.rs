use uefi_runner::document::Node;
use uefi_runner::Config;
use uefi_runner::ConfigError;

fn manifest(settings: &str) -> String {
    format!(
        "[package]\nname = \"demo\"\nversion = \"0.1.0\"\n\n[package.metadata.uefi-runner]\n{}",
        settings
    )
}

fn texts(items: &[&str]) -> Vec<String> {
    items.iter().map(|s| s.to_string()).collect()
}

fn assert_sets_nothing(config: &Config) {
    assert_eq!(config.qemu, None);
    assert_eq!(config.bios, None);
    assert_eq!(config.run_args, None);
    assert_eq!(config.test_args, None);
    assert_eq!(config.test_success_exit_code, None);
    assert_eq!(config.test_timeout, None);
    assert!(config.copy.is_empty());
}

fn non_string(outcome: Result<Config, ConfigError>) -> (String, Node) {
    match outcome {
        Err(ConfigError::NonString { key, value }) => (key, value),
        other => panic!("expected a non-string error, got {:?}", other),
    }
}

fn unexpected_key(outcome: Result<Config, ConfigError>) -> (String, Node) {
    match outcome {
        Err(ConfigError::UnexpectedKey { key, value }) => (key, value),
        other => panic!("expected an unexpected key, got {:?}", other),
    }
}

#[test]
fn manifest_without_metadata_sets_nothing() {
    let config = Config::read("[package]\nname = \"demo\"\n").unwrap();
    assert_sets_nothing(&config);
}

#[test]
fn empty_manifest_sets_nothing() {
    let config = Config::read("").unwrap();
    assert_sets_nothing(&config);
}

#[test]
fn metadata_of_another_tool_sets_nothing() {
    let config = Config::read("[package.metadata.other]\nqemu = \"x\"\n").unwrap();
    assert_sets_nothing(&config);
}

#[test]
fn package_that_is_no_table_sets_nothing() {
    let config = Config::read("package = 1\n").unwrap();
    assert_sets_nothing(&config);
}

#[test]
fn empty_metadata_table_sets_nothing() {
    let config = Config::read(&manifest("")).unwrap();
    assert_sets_nothing(&config);
}

#[test]
fn manifest_without_metadata_gives_the_default_profile() {
    let config = Config::read("[package]\nname = \"demo\"\n").unwrap();
    let profile = config.build_profile(true, "out/esp");
    assert_eq!(profile.qemu, "qemu-system-x86_64");
    assert_eq!(
        profile.args,
        texts(&["-bios", "OVMF.fd", "-drive", "format=raw,file=fat:rw:out/esp"])
    );
    assert_eq!(profile.test_success_exit_code, 0);
    assert_eq!(profile.test_timeout, 300);
}

#[test]
fn every_key_reaches_its_field() {
    let text = manifest(
        "qemu = \"qemu-kvm\"\n\
         bios = \"firmware/OVMF.fd\"\n\
         run-args = [\"-m\", \"256M\"]\n\
         test-args = [\"-display\", \"none\"]\n\
         test-success-exit-code = 33\n\
         test-timeout = 60\n\
         \n\
         [package.metadata.uefi-runner.copy]\n\
         \"data/a.txt\" = \"a.txt\"\n",
    );
    let config = Config::read(&text).unwrap();
    assert_eq!(config.qemu, Some("qemu-kvm".to_string()));
    assert_eq!(config.bios, Some("firmware/OVMF.fd".to_string()));
    assert_eq!(config.run_args, Some(texts(&["-m", "256M"])));
    assert_eq!(config.test_args, Some(texts(&["-display", "none"])));
    assert_eq!(config.test_success_exit_code, Some(33));
    assert_eq!(config.test_timeout, Some(60));
    assert_eq!(config.copy, vec![("data/a.txt".to_string(), "a.txt".to_string())]);
}

#[test]
fn negative_timeout_is_refused() {
    assert!(matches!(
        Config::read(&manifest("test-timeout = -1\n")),
        Err(ConfigError::NegativeTimeout)
    ));
    assert!(matches!(
        Config::read(&manifest("test-timeout = -9223372036854775808\n")),
        Err(ConfigError::NegativeTimeout)
    ));
}

#[test]
fn zero_and_positive_timeouts_are_accepted() {
    let config = Config::read(&manifest("test-timeout = 0\n")).unwrap();
    assert_eq!(config.test_timeout, Some(0));
    let config = Config::read(&manifest("test-timeout = 5\n")).unwrap();
    assert_eq!(config.test_timeout, Some(5));
    let config = Config::read(&manifest("test-timeout = 4294967295\n")).unwrap();
    assert_eq!(config.test_timeout, Some(4294967295));
}

#[test]
fn timeout_beyond_32_bits_is_kept_as_it_is() {
    let config = Config::read(&manifest("test-timeout = 4294967296\n")).unwrap();
    assert_eq!(config.test_timeout, Some(4294967296));
    let config = Config::read(&manifest("test-timeout = 4294967301\n")).unwrap();
    assert_eq!(config.test_timeout, Some(4294967301));
    let config = Config::read(&manifest("test-timeout = 9223372036854775807\n")).unwrap();
    assert_eq!(config.test_timeout, Some(9223372036854775807));
}

#[test]
fn timeout_beyond_32_bits_reaches_the_profile() {
    let config = Config::read(&manifest("test-timeout = 4294967296\n")).unwrap();
    let profile = config.build_profile(true, "esp");
    assert_eq!(profile.test_timeout, 4294967296);
}

#[test]
fn exit_code_of_any_sign_is_accepted() {
    let config = Config::read(&manifest("test-success-exit-code = 42\n")).unwrap();
    assert_eq!(config.test_success_exit_code, Some(42));
    let config = Config::read(&manifest("test-success-exit-code = -1\n")).unwrap();
    assert_eq!(config.test_success_exit_code, Some(-1));
    let config = Config::read(&manifest("test-success-exit-code = 0\n")).unwrap();
    assert_eq!(config.test_success_exit_code, Some(0));
}

#[test]
fn exit_code_beyond_32_bits_is_kept_as_it_is() {
    let config = Config::read(&manifest("test-success-exit-code = 4294967338\n")).unwrap();
    assert_eq!(config.test_success_exit_code, Some(4294967338));
    let config = Config::read(&manifest("test-success-exit-code = 2147483648\n")).unwrap();
    assert_eq!(config.test_success_exit_code, Some(2147483648));
    let config =
        Config::read(&manifest("test-success-exit-code = -9223372036854775808\n")).unwrap();
    assert_eq!(config.test_success_exit_code, Some(i64::MIN));
}

#[test]
fn run_args_with_a_number_are_refused() {
    let (key, value) = non_string(Config::read(&manifest("run-args = [\"-m\", 256]\n")));
    assert_eq!(key, "run-args");
    assert_eq!(value, Node::Integer(256));
}

#[test]
fn test_args_with_a_boolean_are_refused() {
    let (key, value) = non_string(Config::read(&manifest("test-args = [true]\n")));
    assert_eq!(key, "test-args");
    assert_eq!(value, Node::Boolean(true));
}

#[test]
fn the_first_element_that_is_no_string_is_named() {
    let (key, value) =
        non_string(Config::read(&manifest("run-args = [\"a\", [\"b\"], 2, false]\n")));
    assert_eq!(key, "run-args");
    assert_eq!(value, Node::Array(vec![Node::String("b".to_string())]));
}

#[test]
fn copy_with_a_number_is_refused() {
    let text = manifest("copy = { \"a.txt\" = \"b.txt\", \"c.txt\" = 3 }\n");
    let (key, value) = non_string(Config::read(&text));
    assert_eq!(key, "copy");
    assert_eq!(value, Node::Integer(3));
}

#[test]
fn copy_with_a_table_as_value_is_refused() {
    let text = manifest("[package.metadata.uefi-runner.copy.nested]\nx = \"y\"\n");
    let (key, value) = non_string(Config::read(&text));
    assert_eq!(key, "copy");
    assert_eq!(
        value,
        Node::Table(vec![("x".to_string(), Node::String("y".to_string()))])
    );
}

#[test]
fn empty_lists_and_tables_are_accepted() {
    let config =
        Config::read(&manifest("run-args = []\ntest-args = []\ncopy = {}\n")).unwrap();
    assert_eq!(config.run_args, Some(Vec::new()));
    assert_eq!(config.test_args, Some(Vec::new()));
    assert!(config.copy.is_empty());
}

#[test]
fn copy_pairs_come_in_the_order_of_their_sources() {
    let text = manifest("copy = { \"z.txt\" = \"1\", \"a.txt\" = \"2\", \"m.txt\" = \"3\" }\n");
    let config = Config::read(&text).unwrap();
    assert_eq!(
        config.copy,
        vec![
            ("a.txt".to_string(), "2".to_string()),
            ("m.txt".to_string(), "3".to_string()),
            ("z.txt".to_string(), "1".to_string()),
        ]
    );
}

#[test]
fn unknown_key_is_refused_with_its_value() {
    let (key, value) = unexpected_key(Config::read(&manifest("colour = \"red\"\n")));
    assert_eq!(key, "colour");
    assert_eq!(value, Node::String("red".to_string()));
}

#[test]
fn known_key_with_a_value_of_the_wrong_kind_is_refused() {
    let (key, value) = unexpected_key(Config::read(&manifest("qemu = 5\n")));
    assert_eq!((key.as_str(), value), ("qemu", Node::Integer(5)));
    let (key, value) = unexpected_key(Config::read(&manifest("bios = [\"x\"]\n")));
    assert_eq!(
        (key.as_str(), value),
        ("bios", Node::Array(vec![Node::String("x".to_string())]))
    );
    let (key, value) = unexpected_key(Config::read(&manifest("test-timeout = \"5\"\n")));
    assert_eq!((key.as_str(), value), ("test-timeout", Node::String("5".to_string())));
    let (key, value) = unexpected_key(Config::read(&manifest("test-success-exit-code = true\n")));
    assert_eq!((key.as_str(), value), ("test-success-exit-code", Node::Boolean(true)));
    let (key, value) = unexpected_key(Config::read(&manifest("run-args = \"-m\"\n")));
    assert_eq!((key.as_str(), value), ("run-args", Node::String("-m".to_string())));
    let (key, value) = unexpected_key(Config::read(&manifest("test-args = 1\n")));
    assert_eq!((key.as_str(), value), ("test-args", Node::Integer(1)));
    let (key, value) = unexpected_key(Config::read(&manifest("copy = [\"a\"]\n")));
    assert_eq!(
        (key.as_str(), value),
        ("copy", Node::Array(vec![Node::String("a".to_string())]))
    );
}

#[test]
fn float_is_kept_by_its_bits() {
    let (key, value) = unexpected_key(Config::read(&manifest("test-timeout = 1.5\n")));
    assert_eq!(key, "test-timeout");
    assert_eq!(value, Node::Float(1.5f64.to_bits()));
}

#[test]
fn date_time_is_kept_by_its_text() {
    let (key, value) = unexpected_key(Config::read(&manifest("built = 1979-05-27T07:32:00Z\n")));
    assert_eq!(key, "built");
    assert_eq!(value, Node::Datetime("1979-05-27T07:32:00Z".to_string()));
}

#[test]
fn metadata_that_is_no_table_is_refused() {
    assert!(matches!(
        Config::read("[package.metadata]\nuefi-runner = 1\n"),
        Err(ConfigError::InvalidMetadata)
    ));
    assert!(matches!(
        Config::read("[package.metadata]\nuefi-runner = [\"qemu\"]\n"),
        Err(ConfigError::InvalidMetadata)
    ));
    assert!(matches!(
        Config::read("[package.metadata]\nuefi-runner = \"qemu\"\n"),
        Err(ConfigError::InvalidMetadata)
    ));
}

#[test]
fn text_that_is_no_toml_is_refused() {
    assert!(matches!(Config::read("[package"), Err(ConfigError::Parse(_))));
    assert!(matches!(Config::read("a = \n"), Err(ConfigError::Parse(_))));
    assert!(matches!(Config::read("a = 1\na = 2\n"), Err(ConfigError::Parse(_))));
}

#[test]
fn the_first_refused_entry_in_key_order_decides() {
    let text = manifest("test-timeout = -1\nbogus = 1\n");
    let (key, value) = unexpected_key(Config::read(&text));
    assert_eq!((key.as_str(), value), ("bogus", Node::Integer(1)));
    let text = manifest("zzz = 1\ntest-timeout = -1\n");
    assert!(matches!(Config::read(&text), Err(ConfigError::NegativeTimeout)));
    let text = manifest("test-timeout = -1\nrun-args = [1]\n");
    let (key, value) = non_string(Config::read(&text));
    assert_eq!((key.as_str(), value), ("run-args", Node::Integer(1)));
}

fn entry(key: &str, value: Node) -> (String, Node) {
    (key.to_string(), value)
}

fn document(metadata: Node) -> Node {
    Node::Table(vec![entry(
        "package",
        Node::Table(vec![
            entry("name", Node::String("demo".to_string())),
            entry("metadata", Node::Table(vec![entry("uefi-runner", metadata)])),
        ]),
    )])
}

#[test]
fn document_built_by_hand_loads_like_a_parsed_one() {
    let metadata = Node::Table(vec![
        entry("bios", Node::String("x.fd".to_string())),
        entry("test-timeout", Node::Integer(7)),
    ]);
    let config = Config::from_document(&document(metadata)).unwrap();
    assert_eq!(config.bios, Some("x.fd".to_string()));
    assert_eq!(config.test_timeout, Some(7));
    assert_eq!(config.qemu, None);
}

#[test]
fn document_that_is_no_table_sets_nothing() {
    let config = Config::from_document(&Node::Integer(3)).unwrap();
    assert_sets_nothing(&config);
    let config = Config::from_document(&Node::Array(Vec::new())).unwrap();
    assert_sets_nothing(&config);
}

#[test]
fn entries_are_taken_in_their_order() {
    let entries = vec![
        entry("qemu", Node::String("first".to_string())),
        entry("qemu", Node::String("second".to_string())),
    ];
    let config = Config::from_metadata(&entries).unwrap();
    assert_eq!(config.qemu, Some("second".to_string()));
    let entries = vec![
        entry("qemu", Node::Boolean(false)),
        entry("test-timeout", Node::Integer(-3)),
    ];
    let (key, value) = unexpected_key(Config::from_metadata(&entries));
    assert_eq!((key.as_str(), value), ("qemu", Node::Boolean(false)));
    let entries = vec![
        entry("test-timeout", Node::Integer(-3)),
        entry("qemu", Node::Boolean(false)),
    ];
    assert!(matches!(Config::from_metadata(&entries), Err(ConfigError::NegativeTimeout)));
}

#[test]
fn later_copy_table_replaces_the_earlier_one() {
    let entries = vec![
        entry("copy", Node::Table(vec![entry("a", Node::String("1".to_string()))])),
        entry("copy", Node::Table(vec![entry("b", Node::String("2".to_string()))])),
    ];
    let config = Config::from_metadata(&entries).unwrap();
    assert_eq!(config.copy, vec![("b".to_string(), "2".to_string())]);
}

#[test]
fn get_finds_the_first_entry_under_a_key() {
    let table = Node::Table(vec![
        entry("a", Node::Integer(1)),
        entry("b", Node::Integer(2)),
        entry("a", Node::Integer(3)),
    ]);
    assert_eq!(table.get("a"), Some(&Node::Integer(1)));
    assert_eq!(table.get("b"), Some(&Node::Integer(2)));
    assert_eq!(table.get("c"), None);
    assert_eq!(table.get(""), None);
}

#[test]
fn get_on_anything_but_a_table_finds_nothing() {
    assert_eq!(Node::Integer(1).get("a"), None);
    assert_eq!(Node::String("a".to_string()).get("a"), None);
    assert_eq!(Node::Array(vec![Node::String("a".to_string())]).get("a"), None);
}

#[test]
fn clone_copies_the_whole_tree() {
    let tree = document(Node::Table(vec![
        entry("run-args", Node::Array(vec![Node::String("-m".to_string()), Node::Integer(1)])),
        entry("when", Node::Datetime("1979-05-27".to_string())),
        entry("ratio", Node::Float(0.25f64.to_bits())),
        entry("flag", Node::Boolean(true)),
    ]));
    assert_eq!(tree.clone(), tree);
}
