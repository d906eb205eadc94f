//! Loading the configuration from a manifest.

use crate::config::lemma_default_profile;
use crate::config::profile_of;
use crate::config::Config;
use crate::config::ConfigView;
use crate::config::ProfileView;
use crate::document::lemma_view_of_children;
use crate::document::parse_document;
use crate::document::same_text;
use crate::document::toml_document;
use crate::document::Node;
use crate::document::NodeView;
use vstd::prelude::*;

verus! {

/// Why a manifest gives no configuration.
#[derive(Debug)]
pub enum ConfigError {
    /// The manifest is no TOML document; the parser's own error is inside.
    Parse(toml::de::Error),
    /// `package.metadata.uefi-runner` is there and is no table.
    InvalidMetadata,
    /// `test-timeout` is negative.
    NegativeTimeout,
    /// `run-args` or `test-args` holds an element, or `copy` a value, that is
    /// no string: `key` is the key of the list or table, `value` the offender.
    NonString { key: String, value: Node },
    /// A key that the runner does not know, or a known one whose value is of
    /// the wrong kind.
    UnexpectedKey { key: String, value: Node },
}

/// The mathematical model of a [`ConfigError`].
pub enum ConfigErrorView {
    Parse,
    InvalidMetadata,
    NegativeTimeout,
    NonString { key: Seq<char>, value: NodeView },
    UnexpectedKey { key: Seq<char>, value: NodeView },
}

impl View for ConfigError {
    type V = ConfigErrorView;

    open spec fn view(&self) -> ConfigErrorView {
        match self {
            ConfigError::Parse(_) => ConfigErrorView::Parse,
            ConfigError::InvalidMetadata => ConfigErrorView::InvalidMetadata,
            ConfigError::NegativeTimeout => ConfigErrorView::NegativeTimeout,
            ConfigError::NonString { key, value } => ConfigErrorView::NonString {
                key: key@,
                value: value@,
            },
            ConfigError::UnexpectedKey { key, value } => ConfigErrorView::UnexpectedKey {
                key: key@,
                value: value@,
            },
        }
    }
}

/// The model of what loading a configuration gives.
pub open spec fn outcome_view(outcome: Result<Config, ConfigError>) -> Result<
    ConfigView,
    ConfigErrorView,
> {
    match outcome {
        Ok(config) => Ok(config@),
        Err(error) => Err(error@),
    }
}

/// Whether every item is a string.
pub open spec fn all_strings(items: Seq<NodeView>) -> bool {
    forall|i: int| 0 <= i < items.len() ==> items[i] is String
}

/// Whether `i` is the place of the first item that is no string.
pub open spec fn is_first_non_string(items: Seq<NodeView>, i: int) -> bool {
    &&& 0 <= i < items.len()
    &&& !(items[i] is String)
    &&& forall|j: int| 0 <= j < i ==> items[j] is String
}

/// The place of the first item that is no string, where there is one.
pub open spec fn first_non_string(items: Seq<NodeView>) -> int {
    choose|i: int| is_first_non_string(items, i)
}

/// The texts of a list of strings, or the first item that is no string.
pub open spec fn strings_of(items: Seq<NodeView>) -> Result<Seq<Seq<char>>, NodeView> {
    if all_strings(items) {
        Ok(Seq::new(items.len(), |i: int| items[i]->String_0))
    } else {
        Err(items[first_non_string(items)])
    }
}

/// The values of a table's entries, in order.
pub open spec fn values_of(entries: Seq<(Seq<char>, NodeView)>) -> Seq<NodeView> {
    Seq::new(entries.len(), |i: int| entries[i].1)
}

/// The entries of a table of strings as pairs of texts, or the first value
/// that is no string.
pub open spec fn string_pairs(entries: Seq<(Seq<char>, NodeView)>) -> Result<
    Seq<(Seq<char>, Seq<char>)>,
    NodeView,
> {
    match strings_of(values_of(entries)) {
        Ok(texts) => Ok(Seq::new(entries.len(), |i: int| (entries[i].0, texts[i]))),
        Err(offender) => Err(offender),
    }
}

/// What one accepted entry of the metadata table sets.
pub enum Setting {
    Qemu(Seq<char>),
    Bios(Seq<char>),
    TestTimeout(u64),
    TestSuccessExitCode(i64),
    RunArgs(Seq<Seq<char>>),
    TestArgs(Seq<Seq<char>>),
    Copy(Seq<(Seq<char>, Seq<char>)>),
}

/// What the entry `key = value` of the metadata table sets, or why it is
/// refused. A timeout and a success code are kept as the numbers they are.
pub open spec fn setting(key: Seq<char>, value: NodeView) -> Result<Setting, ConfigErrorView> {
    if key == "qemu"@ && value is String {
        Ok(Setting::Qemu(value->String_0))
    } else if key == "bios"@ && value is String {
        Ok(Setting::Bios(value->String_0))
    } else if key == "test-timeout"@ && value is Integer {
        if value->Integer_0 < 0 {
            Err(ConfigErrorView::NegativeTimeout)
        } else {
            Ok(Setting::TestTimeout(value->Integer_0 as u64))
        }
    } else if key == "test-success-exit-code"@ && value is Integer {
        Ok(Setting::TestSuccessExitCode(value->Integer_0))
    } else if key == "run-args"@ && value is Array {
        match strings_of(value->Array_0) {
            Ok(args) => Ok(Setting::RunArgs(args)),
            Err(offender) => Err(ConfigErrorView::NonString { key, value: offender }),
        }
    } else if key == "test-args"@ && value is Array {
        match strings_of(value->Array_0) {
            Ok(args) => Ok(Setting::TestArgs(args)),
            Err(offender) => Err(ConfigErrorView::NonString { key, value: offender }),
        }
    } else if key == "copy"@ && value is Table {
        match string_pairs(value->Table_0) {
            Ok(pairs) => Ok(Setting::Copy(pairs)),
            Err(offender) => Err(ConfigErrorView::NonString { key, value: offender }),
        }
    } else {
        Err(ConfigErrorView::UnexpectedKey { key, value })
    }
}

/// The configuration after a setting has been taken in.
pub open spec fn apply(config: ConfigView, setting: Setting) -> ConfigView {
    match setting {
        Setting::Qemu(qemu) => ConfigView { qemu: Some(qemu), ..config },
        Setting::Bios(bios) => ConfigView { bios: Some(bios), ..config },
        Setting::TestTimeout(seconds) => ConfigView { test_timeout: Some(seconds), ..config },
        Setting::TestSuccessExitCode(code) => ConfigView {
            test_success_exit_code: Some(code),
            ..config
        },
        Setting::RunArgs(args) => ConfigView { run_args: Some(args), ..config },
        Setting::TestArgs(args) => ConfigView { test_args: Some(args), ..config },
        Setting::Copy(pairs) => ConfigView { copy: pairs, ..config },
    }
}

/// The configuration after the entries have been taken in, one after the
/// other; the first entry that is refused ends the loading with its error.
pub open spec fn accept_all(config: ConfigView, entries: Seq<(Seq<char>, NodeView)>) -> Result<
    ConfigView,
    ConfigErrorView,
>
    decreases entries.len(),
{
    if entries.len() == 0 {
        Ok(config)
    } else {
        match setting(entries[0].0, entries[0].1) {
            Ok(set) => accept_all(apply(config, set), entries.drop_first()),
            Err(error) => Err(error),
        }
    }
}

/// What stands under `package.metadata.uefi-runner` in a document.
pub open spec fn metadata_of(document: NodeView) -> Option<NodeView> {
    match document.get("package"@) {
        Some(package) => match package.get("metadata"@) {
            Some(metadata) => metadata.get("uefi-runner"@),
            None => None,
        },
        None => None,
    }
}

/// The configuration that a parsed manifest gives.
pub open spec fn load(document: NodeView) -> Result<ConfigView, ConfigErrorView> {
    match metadata_of(document) {
        None => Ok(ConfigView::empty()),
        Some(NodeView::Table(entries)) => accept_all(ConfigView::empty(), entries),
        Some(_) => Err(ConfigErrorView::InvalidMetadata),
    }
}

/// The configuration that the text of a manifest gives.
pub open spec fn read_outcome(manifest: Seq<char>) -> Result<ConfigView, ConfigErrorView> {
    match toml_document(manifest) {
        Some(document) => load(document),
        None => Err(ConfigErrorView::Parse),
    }
}

/// The texts of a list of strings, or a copy of the first item that is none.
fn strings(items: &Vec<Node>) -> (r: Result<Vec<String>, Node>)
    ensures
        match strings_of(items.deep_view()) {
            Ok(texts) => r matches Ok(found) && found.deep_view() == texts,
            Err(offender) => r matches Err(found) && found@ == offender,
        },
{
    let ghost all = items.deep_view();
    let mut texts: Vec<String> = Vec::new();
    let mut i: usize = 0;
    while i < items.len()
        invariant
            i <= items.len(),
            all == items.deep_view(),
            texts.len() == i,
            forall|j: int| 0 <= j < i ==> #[trigger] all[j] == NodeView::String(texts[j]@),
        decreases items.len() - i,
    {
        assert(all[i as int] == items@[i as int]@);
        match &items[i] {
            Node::String(text) => {
                texts.push(text.clone());
            },
            other => {
                assert(is_first_non_string(all, i as int));
                return Err(other.clone());
            },
        }
        i += 1;
    }
    assert(all_strings(all));
    assert(texts.deep_view() =~= strings_of(all)->Ok_0);
    Ok(texts)
}

/// The entries of a table of strings as pairs of texts, or a copy of the
/// first value that is no string.
fn pairs(entries: &Vec<(String, Node)>) -> (r: Result<Vec<(String, String)>, Node>)
    ensures
        match string_pairs(entries.deep_view()) {
            Ok(texts) => r matches Ok(found) && found.deep_view() == texts,
            Err(offender) => r matches Err(found) && found@ == offender,
        },
{
    let ghost all = entries.deep_view();
    let ghost values = values_of(all);
    let mut found: Vec<(String, String)> = Vec::new();
    let mut i: usize = 0;
    while i < entries.len()
        invariant
            i <= entries.len(),
            all == entries.deep_view(),
            values == values_of(all),
            found.len() == i,
            forall|j: int|
                0 <= j < i ==> #[trigger] all[j] == (found[j].0@, NodeView::String(found[j].1@)),
        decreases entries.len() - i,
    {
        assert(all[i as int] == entries@[i as int].deep_view());
        match &entries[i].1 {
            Node::String(text) => {
                found.push((entries[i].0.clone(), text.clone()));
            },
            other => {
                assert(is_first_non_string(values, i as int));
                return Err(other.clone());
            },
        }
        i += 1;
    }
    assert(all_strings(values));
    assert(found.deep_view() =~= string_pairs(all)->Ok_0);
    Ok(found)
}

impl Config {
    /// Takes in the entry `key = value` of the metadata table.
    fn accept(self, key: &String, value: &Node) -> (outcome: Result<Config, ConfigError>)
        ensures
            outcome_view(outcome) == match setting(key@, value@) {
                Ok(set) => Ok(apply(self@, set)),
                Err(error) => Err(error),
            },
    {
        let mut config = self;
        proof {
            lemma_view_of_children(*value);
        }
        match value {
            Node::String(text) => {
                if same_text(key.as_str(), "qemu") {
                    config.qemu = Some(text.clone());
                    return Ok(config);
                }
                if same_text(key.as_str(), "bios") {
                    config.bios = Some(text.clone());
                    return Ok(config);
                }
            },
            Node::Integer(number) => {
                if same_text(key.as_str(), "test-timeout") {
                    if *number < 0 {
                        return Err(ConfigError::NegativeTimeout);
                    }
                    config.test_timeout = Some(*number as u64);
                    return Ok(config);
                }
                if same_text(key.as_str(), "test-success-exit-code") {
                    config.test_success_exit_code = Some(*number);
                    return Ok(config);
                }
            },
            Node::Array(items) => {
                if same_text(key.as_str(), "run-args") {
                    match strings(items) {
                        Ok(args) => {
                            config.run_args = Some(args);
                            return Ok(config);
                        },
                        Err(offender) => {
                            return Err(ConfigError::NonString { key: key.clone(), value: offender });
                        },
                    }
                }
                if same_text(key.as_str(), "test-args") {
                    match strings(items) {
                        Ok(args) => {
                            config.test_args = Some(args);
                            return Ok(config);
                        },
                        Err(offender) => {
                            return Err(ConfigError::NonString { key: key.clone(), value: offender });
                        },
                    }
                }
            },
            Node::Table(entries) => {
                if same_text(key.as_str(), "copy") {
                    match pairs(entries) {
                        Ok(found) => {
                            config.copy = found;
                            return Ok(config);
                        },
                        Err(offender) => {
                            return Err(ConfigError::NonString { key: key.clone(), value: offender });
                        },
                    }
                }
            },
            _ => {},
        }
        Err(ConfigError::UnexpectedKey { key: key.clone(), value: value.clone() })
    }

    /// Loads the configuration from the entries of the metadata table, taken
    /// in their order. The first entry that is refused ends the loading with
    /// its error; where an accepted key comes twice, the later entry counts.
    pub fn from_metadata(entries: &Vec<(String, Node)>) -> (outcome: Result<Config, ConfigError>)
        ensures
            outcome_view(outcome) == accept_all(ConfigView::empty(), entries.deep_view()),
    {
        let ghost all = entries.deep_view();
        let mut config = Config::default();
        let mut i: usize = 0;
        assert(all.skip(0) =~= all);
        while i < entries.len()
            invariant
                i <= entries.len(),
                all == entries.deep_view(),
                accept_all(ConfigView::empty(), all) == accept_all(config@, all.skip(i as int)),
            decreases entries.len() - i,
        {
            assert(all.skip(i as int).drop_first() =~= all.skip(i + 1));
            assert(all.skip(i as int)[0] == all[i as int]);
            assert(all[i as int] == entries@[i as int].deep_view());
            match config.accept(&entries[i].0, &entries[i].1) {
                Ok(next) => {
                    config = next;
                },
                Err(error) => {
                    return Err(error);
                },
            }
            i += 1;
        }
        Ok(config)
    }

    /// Loads the configuration from a parsed manifest.
    ///
    /// A manifest without `package.metadata.uefi-runner` gives the
    /// configuration that sets nothing. One where that is no table is
    /// refused; one where it is a table is loaded from its entries.
    pub fn from_document(document: &Node) -> (outcome: Result<Config, ConfigError>)
        ensures
            outcome_view(outcome) == load(document@),
    {
        let metadata = match document.get("package") {
            Some(package) => match package.get("metadata") {
                Some(metadata) => metadata.get("uefi-runner"),
                None => None,
            },
            None => None,
        };
        match metadata {
            None => Ok(Config::default()),
            Some(block) => {
                proof {
                    lemma_view_of_children(*block);
                }
                match block {
                    Node::Table(entries) => Config::from_metadata(entries),
                    _ => Err(ConfigError::InvalidMetadata),
                }
            },
        }
    }

    /// Reads the configuration from the text of a manifest: parses it as
    /// TOML, and loads the configuration from the document. A text that is no
    /// TOML document is refused with the parser's error.
    pub fn read(manifest: &str) -> (outcome: Result<Config, ConfigError>)
        ensures
            outcome_view(outcome) == read_outcome(manifest@),
    {
        match parse_document(manifest) {
            Ok(document) => Config::from_document(&document),
            Err(error) => Err(ConfigError::Parse(error)),
        }
    }
}

/// The first entry that is refused decides how the loading ends: where every
/// entry before `at` is accepted and the one at `at` is refused, the loading
/// fails with that entry's error.
pub proof fn lemma_first_refusal_decides(
    config: ConfigView,
    entries: Seq<(Seq<char>, NodeView)>,
    at: int,
)
    requires
        0 <= at < entries.len(),
        setting(entries[at].0, entries[at].1) is Err,
        forall|j: int| 0 <= j < at ==> setting(entries[j].0, entries[j].1) is Ok,
    ensures
        accept_all(config, entries) == Err::<ConfigView, ConfigErrorView>(
            setting(entries[at].0, entries[at].1)->Err_0,
        ),
    decreases at,
{
    if at > 0 {
        let rest = entries.drop_first();
        assert(setting(entries[0].0, entries[0].1) is Ok);
        assert(rest[at - 1] == entries[at]);
        assert forall|j: int| 0 <= j < at - 1 implies setting(rest[j].0, rest[j].1) is Ok by {
            assert(rest[j] == entries[j + 1]);
        }
        lemma_first_refusal_decides(
            apply(config, setting(entries[0].0, entries[0].1)->Ok_0),
            rest,
            at - 1,
        );
    }
}

/// One refused entry is enough for the loading to fail, wherever it stands.
pub proof fn lemma_refused_entry_fails_loading(
    config: ConfigView,
    entries: Seq<(Seq<char>, NodeView)>,
    at: int,
)
    requires
        0 <= at < entries.len(),
        setting(entries[at].0, entries[at].1) is Err,
    ensures
        accept_all(config, entries) is Err,
    decreases at,
{
    if at > 0 && setting(entries[0].0, entries[0].1) is Ok {
        let rest = entries.drop_first();
        assert(rest[at - 1] == entries[at]);
        lemma_refused_entry_fails_loading(
            apply(config, setting(entries[0].0, entries[0].1)->Ok_0),
            rest,
            at - 1,
        );
    }
}

/// Where every entry is accepted, the loading succeeds.
pub proof fn lemma_accepted_entries_load(config: ConfigView, entries: Seq<(Seq<char>, NodeView)>)
    requires
        forall|j: int| 0 <= j < entries.len() ==> setting(entries[j].0, entries[j].1) is Ok,
    ensures
        accept_all(config, entries) is Ok,
    decreases entries.len(),
{
    if entries.len() > 0 {
        let rest = entries.drop_first();
        assert(setting(entries[0].0, entries[0].1) is Ok);
        assert forall|j: int| 0 <= j < rest.len() implies setting(rest[j].0, rest[j].1) is Ok by {
            assert(rest[j] == entries[j + 1]);
        }
        lemma_accepted_entries_load(apply(config, setting(entries[0].0, entries[0].1)->Ok_0), rest);
    }
}

/// A manifest without a metadata block gives the configuration that sets
/// nothing, and with it the default profile: the standard emulator, the
/// firmware `OVMF.fd` and the drive as the only arguments, success code 0 and
/// a timeout of 300 seconds.
pub proof fn lemma_manifest_without_metadata(document: NodeView, is_test: bool, esp: Seq<char>)
    requires
        metadata_of(document) is None,
    ensures
        load(document) == Ok::<ConfigView, ConfigErrorView>(ConfigView::empty()),
        profile_of(load(document)->Ok_0, is_test, esp) == (ProfileView {
            qemu: "qemu-system-x86_64"@,
            args: seq!["-bios"@, "OVMF.fd"@, "-drive"@, "format=raw,file=fat:rw:"@ + esp],
            test_success_exit_code: 0,
            test_timeout: 300,
        }),
{
    lemma_default_profile(is_test, esp);
}

/// Keys that take values of one kind are different texts.
proof fn lemma_keys_differ()
    ensures
        "qemu"@ != "bios"@,
        "qemu"@ != "copy"@,
        "bios"@ != "copy"@,
        "test-timeout"@ != "test-success-exit-code"@,
        "run-args"@ != "test-args"@,
{
    reveal_strlit("qemu");
    reveal_strlit("bios");
    reveal_strlit("copy");
    reveal_strlit("test-timeout");
    reveal_strlit("test-success-exit-code");
    reveal_strlit("run-args");
    reveal_strlit("test-args");
    assert("qemu"@[0] == 'q');
    assert("bios"@[0] == 'b');
    assert("copy"@[0] == 'c');
    assert("test-timeout"@.len() == 12);
    assert("test-success-exit-code"@.len() == 22);
    assert("run-args"@.len() == 8);
    assert("test-args"@.len() == 9);
}

/// Whether the value is of the kind that the key takes: a string for `qemu`
/// and `bios`, an integer for `test-timeout` and `test-success-exit-code`, an
/// array for `run-args` and `test-args`, a table for `copy`. No other key
/// takes any value.
pub open spec fn fits(key: Seq<char>, value: NodeView) -> bool {
    ||| (key == "qemu"@ || key == "bios"@) && value is String
    ||| (key == "test-timeout"@ || key == "test-success-exit-code"@) && value is Integer
    ||| (key == "run-args"@ || key == "test-args"@) && value is Array
    ||| key == "copy"@ && value is Table
}

/// An entry whose value is not of the kind that its key takes, or whose key
/// the runner does not know, is refused, and the error names the key and the
/// value.
pub proof fn lemma_misfit_refused(key: Seq<char>, value: NodeView)
    requires
        !fits(key, value),
    ensures
        setting(key, value) == Err::<Setting, ConfigErrorView>(
            ConfigErrorView::UnexpectedKey { key, value },
        ),
{
}

/// `qemu` and `bios` take any string, as it is.
pub proof fn lemma_string_entries(text: Seq<char>)
    ensures
        setting("qemu"@, NodeView::String(text)) == Ok::<Setting, ConfigErrorView>(
            Setting::Qemu(text),
        ),
        setting("bios"@, NodeView::String(text)) == Ok::<Setting, ConfigErrorView>(
            Setting::Bios(text),
        ),
{
    lemma_keys_differ();
}

/// A negative `test-timeout` is refused as such; zero and every positive
/// number are accepted, and the number of seconds is kept as it is.
pub proof fn lemma_timeout_entry(seconds: i64)
    ensures
        seconds < 0 ==> setting("test-timeout"@, NodeView::Integer(seconds)) == Err::<
            Setting,
            ConfigErrorView,
        >(ConfigErrorView::NegativeTimeout),
        seconds >= 0 ==> setting("test-timeout"@, NodeView::Integer(seconds)) == Ok::<
            Setting,
            ConfigErrorView,
        >(Setting::TestTimeout(seconds as u64)),
        seconds >= 0 ==> seconds as u64 == seconds,
{
}

/// `test-success-exit-code` takes an integer of any sign and keeps it as it
/// is.
pub proof fn lemma_exit_code_entry(code: i64)
    ensures
        setting("test-success-exit-code"@, NodeView::Integer(code)) == Ok::<
            Setting,
            ConfigErrorView,
        >(Setting::TestSuccessExitCode(code)),
{
    lemma_keys_differ();
}

/// `run-args` and `test-args` take any array of strings: each text in its
/// place.
pub proof fn lemma_argument_entries(items: Seq<NodeView>)
    requires
        all_strings(items),
    ensures
        strings_of(items) is Ok,
        strings_of(items)->Ok_0.len() == items.len(),
        forall|i: int|
            0 <= i < items.len() ==> items[i] == NodeView::String(
                #[trigger] strings_of(items)->Ok_0[i],
            ),
        setting("run-args"@, NodeView::Array(items)) == Ok::<Setting, ConfigErrorView>(
            Setting::RunArgs(strings_of(items)->Ok_0),
        ),
        setting("test-args"@, NodeView::Array(items)) == Ok::<Setting, ConfigErrorView>(
            Setting::TestArgs(strings_of(items)->Ok_0),
        ),
{
    lemma_keys_differ();
}

/// `copy` takes any table whose values are strings: each key with its value,
/// in the order of the entries.
pub proof fn lemma_copy_entry(entries: Seq<(Seq<char>, NodeView)>)
    requires
        all_strings(values_of(entries)),
    ensures
        string_pairs(entries) is Ok,
        string_pairs(entries)->Ok_0.len() == entries.len(),
        forall|i: int|
            0 <= i < entries.len() ==> entries[i] == (
                (#[trigger] string_pairs(entries)->Ok_0[i]).0,
                NodeView::String(string_pairs(entries)->Ok_0[i].1),
            ),
        setting("copy"@, NodeView::Table(entries)) == Ok::<Setting, ConfigErrorView>(
            Setting::Copy(string_pairs(entries)->Ok_0),
        ),
{
    assert forall|i: int| 0 <= i < entries.len() implies entries[i] == (
        (#[trigger] string_pairs(entries)->Ok_0[i]).0,
        NodeView::String(string_pairs(entries)->Ok_0[i].1),
    ) by {
        assert(values_of(entries)[i] is String);
    }
}

/// Entries under other keys leave the timeout as it was.
proof fn lemma_timeout_untouched(config: ConfigView, entries: Seq<(Seq<char>, NodeView)>)
    requires
        forall|j: int|
            0 <= j < entries.len() ==> entries[j].0 != "test-timeout"@ && setting(
                entries[j].0,
                entries[j].1,
            ) is Ok,
    ensures
        accept_all(config, entries) matches Ok(loaded) && loaded.test_timeout
            == config.test_timeout,
    decreases entries.len(),
{
    if entries.len() > 0 {
        let rest = entries.drop_first();
        assert(entries[0].0 != "test-timeout"@ && setting(entries[0].0, entries[0].1) is Ok);
        assert forall|j: int| 0 <= j < rest.len() implies rest[j].0 != "test-timeout"@ && setting(
            rest[j].0,
            rest[j].1,
        ) is Ok by {
            assert(rest[j] == entries[j + 1]);
        }
        lemma_timeout_untouched(apply(config, setting(entries[0].0, entries[0].1)->Ok_0), rest);
    }
}

/// A metadata table whose `test-timeout` is zero or positive, and whose
/// other entries are accepted, loads, and the configuration holds that very
/// number of seconds, however large.
pub proof fn lemma_timeout_is_loaded(
    config: ConfigView,
    entries: Seq<(Seq<char>, NodeView)>,
    at: int,
    seconds: i64,
)
    requires
        0 <= at < entries.len(),
        entries[at] == ("test-timeout"@, NodeView::Integer(seconds)),
        seconds >= 0,
        forall|j: int|
            0 <= j < entries.len() && j != at ==> entries[j].0 != "test-timeout"@ && setting(
                entries[j].0,
                entries[j].1,
            ) is Ok,
    ensures
        accept_all(config, entries) matches Ok(loaded) && loaded.test_timeout == Some(
            seconds as u64,
        ) && loaded.test_timeout->Some_0 == seconds,
    decreases at,
{
    let rest = entries.drop_first();
    let next = apply(config, setting(entries[0].0, entries[0].1)->Ok_0);
    if at == 0 {
        assert forall|j: int| 0 <= j < rest.len() implies rest[j].0 != "test-timeout"@ && setting(
            rest[j].0,
            rest[j].1,
        ) is Ok by {
            assert(rest[j] == entries[j + 1]);
        }
        lemma_timeout_untouched(next, rest);
    } else {
        assert(setting(entries[0].0, entries[0].1) is Ok);
        assert(rest[at - 1] == entries[at]);
        assert forall|j: int| 0 <= j < rest.len() && j != at - 1 implies rest[j].0
            != "test-timeout"@ && setting(rest[j].0, rest[j].1) is Ok by {
            assert(rest[j] == entries[j + 1]);
        }
        lemma_timeout_is_loaded(next, rest, at - 1, seconds);
    }
}

/// A metadata table with a negative `test-timeout` never loads. It fails for
/// the timeout's sake where no entry before it is refused.
pub proof fn lemma_negative_timeout_fails_loading(
    entries: Seq<(Seq<char>, NodeView)>,
    at: int,
    seconds: i64,
)
    requires
        0 <= at < entries.len(),
        entries[at] == ("test-timeout"@, NodeView::Integer(seconds)),
        seconds < 0,
    ensures
        accept_all(ConfigView::empty(), entries) is Err,
        (forall|j: int| 0 <= j < at ==> setting(entries[j].0, entries[j].1) is Ok) ==> accept_all(
            ConfigView::empty(),
            entries,
        ) == Err::<ConfigView, ConfigErrorView>(ConfigErrorView::NegativeTimeout),
{
    lemma_timeout_entry(seconds);
    lemma_refused_entry_fails_loading(ConfigView::empty(), entries, at);
    if forall|j: int| 0 <= j < at ==> setting(entries[j].0, entries[j].1) is Ok {
        lemma_first_refusal_decides(ConfigView::empty(), entries, at);
    }
}

/// An element of `run-args` or `test-args` that is no string is never turned
/// into one: the entry is refused, and the error names the list and the first
/// such element.
pub proof fn lemma_non_string_argument_refused(key: Seq<char>, items: Seq<NodeView>)
    requires
        key == "run-args"@ || key == "test-args"@,
        !all_strings(items),
    ensures
        is_first_non_string(items, first_non_string(items)),
        setting(key, NodeView::Array(items)) == Err::<Setting, ConfigErrorView>(
            ConfigErrorView::NonString { key, value: items[first_non_string(items)] },
        ),
{
    lemma_first_non_string_exists(items, items.len() as int);
}

/// A value of the `copy` table that is no string is never turned into one:
/// the entry is refused, and the error names the table and the first such
/// value.
pub proof fn lemma_non_string_copy_refused(entries: Seq<(Seq<char>, NodeView)>)
    requires
        !all_strings(values_of(entries)),
    ensures
        is_first_non_string(values_of(entries), first_non_string(values_of(entries))),
        setting("copy"@, NodeView::Table(entries)) == Err::<Setting, ConfigErrorView>(
            ConfigErrorView::NonString {
                key: "copy"@,
                value: entries[first_non_string(values_of(entries))].1,
            },
        ),
{
    lemma_first_non_string_exists(values_of(entries), entries.len() as int);
}

/// A list that holds something else than strings has a first such item.
proof fn lemma_first_non_string_exists(items: Seq<NodeView>, upto: int)
    requires
        0 <= upto <= items.len(),
        exists|i: int| 0 <= i < upto && !(items[i] is String),
    ensures
        is_first_non_string(items, first_non_string(items)),
    decreases upto,
{
    if exists|i: int| 0 <= i < upto - 1 && !(items[i] is String) {
        lemma_first_non_string_exists(items, upto - 1);
    } else {
        assert(is_first_non_string(items, upto - 1));
    }
}

} // verus!
