//! Where the data lives, the configuration, and what loading a store or a
//! configuration decides once the file has been read.
use vstd::prelude::*;

use crate::error::{AppError, AppResult, IoKind};
use crate::model::{Task, TaskStore};
use crate::text::{append_str, owned};

verus! {

/// The application's settings.
#[derive(Debug, Clone, PartialEq, Eq)]
pub struct Config {
    pub i18n: I18nConfig,
}

/// The language setting.
#[derive(Debug, Clone, PartialEq, Eq)]
pub struct I18nConfig {
    pub locale: String,
}

/// How a configuration came to be.
#[derive(Debug, Clone, Copy, PartialEq, Eq, Structural)]
pub enum ConfigLoadStatus {
    Loaded,
    Created,
    ResetInvalid,
}

/// A configuration and how it came to be.
#[derive(Debug, Clone, PartialEq, Eq)]
pub struct LoadedConfig {
    pub config: Config,
    pub status: ConfigLoadStatus,
}

impl Default for Config {
    fn default() -> (r: Config)
        ensures
            r.i18n.locale@ == "en_US"@,
    {
        Config { i18n: I18nConfig { locale: owned("en_US") } }
    }
}

/// The path `name` under `base`, as `Path::join` builds it; named, since
/// the platform's path rules are not restated here.
pub uninterp spec fn joined_path(base: Seq<char>, name: Seq<char>) -> Seq<char>;

/// `Path::join`: the path `name` under `base`. The contract claims that the
/// result is a function of the two texts.
#[verifier::external_body]
pub(crate) fn path_join(base: &str, name: &str) -> (r: String)
    ensures
        r@ == joined_path(base@, name@),
{
    std::path::Path::new(base).join(name).to_string_lossy().into_owned()
}

/// The directory that holds a path, as `Path::parent` finds it, or `None`
/// when it finds none; named, since the platform's path rules are not
/// restated here.
pub uninterp spec fn parent_path(p: Seq<char>) -> Option<Seq<char>>;

/// `Path::parent`. The contract claims that the result is a function of the
/// text.
#[verifier::external_body]
pub(crate) fn path_parent(p: &str) -> (r: Option<String>)
    ensures
        r is Some <==> parent_path(p@) is Some,
        r matches Some(q) ==> q@ == parent_path(p@)->0,
{
    match std::path::Path::new(p).parent() {
        Some(q) => Some(q.to_string_lossy().into_owned()),
        None => None,
    }
}

/// The home directory (`dirs::home_dir`), which depends on the environment;
/// nothing is claimed of it.
#[verifier::external_body]
fn home_dir() -> (r: Option<String>) {
    match dirs::home_dir() {
        Some(h) => Some(h.to_string_lossy().into_owned()),
        None => None,
    }
}

/// The message for a data file path that has no parent directory.
pub open spec fn invalid_path_text(p: Seq<char>) -> Seq<char> {
    "invalid data file path: "@ + p
}

/// The message `invalid data file path: {path}`.
fn invalid_path_message(p: &str) -> (r: String)
    ensures
        r@ == invalid_path_text(p@),
{
    let mut s = owned("invalid data file path: ");
    append_str(&mut s, p);
    proof {
        reveal_strlit("invalid data file path: ");
    }
    s
}

/// The data file to use: the one given, or the default one.
pub fn resolve_data_file(data_file: Option<String>) -> (r: AppResult<String>)
    ensures
        data_file matches Some(p) ==> (r matches Ok(q) && q@ == p@),
        data_file is None ==> (r matches Err(e) ==> e is MissingHomeDir),
        data_file is None ==> (r matches Ok(p) ==> exists|home: Seq<char>|
            p@ == joined_path(joined_path(home, ".todox"@), "tasks.json"@)),
{
    match data_file {
        Some(path) => Ok(path),
        None => default_data_file(),
    }
}

/// The data file under a home directory: `<home>/.todox/tasks.json`, or
/// `MissingHomeDir` when there is no home.
pub fn data_file_under(home: Option<String>) -> (r: AppResult<String>)
    ensures
        home is None ==> (r matches Err(e) && e is MissingHomeDir),
        home matches Some(h) ==> (r matches Ok(p) && p@ == joined_path(
            joined_path(h@, ".todox"@),
            "tasks.json"@,
        )),
{
    match home {
        None => Err(AppError::MissingHomeDir),
        Some(h) => {
            let dir = path_join(h.as_str(), ".todox");
            Ok(path_join(dir.as_str(), "tasks.json"))
        },
    }
}

/// `<home>/.todox/tasks.json` for the user's home directory, or
/// `MissingHomeDir` when there is none. Which home that is depends on the
/// environment; what is built from it is `data_file_under`'s.
pub fn default_data_file() -> (r: AppResult<String>)
    ensures
        r matches Err(e) ==> e is MissingHomeDir,
        r matches Ok(p) ==> exists|home: Seq<char>|
            p@ == joined_path(joined_path(home, ".todox"@), "tasks.json"@),
{
    data_file_under(home_dir())
}

/// A file named `name` beside the data file.
fn sibling_of(data_file: &str, name: &str) -> (r: AppResult<String>)
    ensures
        parent_path(data_file@) matches Some(dir) ==> (r matches Ok(p) && p@ == joined_path(
            dir,
            name@,
        )),
        parent_path(data_file@) is None ==> (r matches Err(AppError::Io(IoKind::InvalidInput, msg)) && msg@
            == invalid_path_text(data_file@)),
{
    match path_parent(data_file) {
        Some(dir) => Ok(path_join(dir.as_str(), name)),
        None => Err(AppError::Io(IoKind::InvalidInput, invalid_path_message(data_file))),
    }
}

/// `config.json` beside the data file.
pub fn config_file_for(data_file: &str) -> (r: AppResult<String>)
    ensures
        parent_path(data_file@) matches Some(dir) ==> (r matches Ok(p) && p@ == joined_path(
            dir,
            "config.json"@,
        )),
        parent_path(data_file@) is None ==> (r matches Err(AppError::Io(IoKind::InvalidInput, msg)) && msg@
            == invalid_path_text(data_file@)),
{
    sibling_of(data_file, "config.json")
}

/// The `i18n` directory beside the data file.
pub fn i18n_dir_for(data_file: &str) -> (r: AppResult<String>)
    ensures
        parent_path(data_file@) matches Some(dir) ==> (r matches Ok(p) && p@ == joined_path(
            dir,
            "i18n"@,
        )),
        parent_path(data_file@) is None ==> (r matches Err(AppError::Io(IoKind::InvalidInput, msg)) && msg@
            == invalid_path_text(data_file@)),
{
    sibling_of(data_file, "i18n")
}

/// The largest id in a list of tasks, 0 when there is none.
pub open spec fn max_id(s: Seq<Task>) -> nat
    decreases s.len(),
{
    if s.len() == 0 {
        0
    } else {
        let m = max_id(s.drop_last());
        if s.last().id as nat > m {
            s.last().id as nat
        } else {
            m
        }
    }
}

/// One past the largest id, kept below `u64::MAX + 1`.
pub open spec fn next_id_spec(s: Seq<Task>) -> nat {
    if max_id(s) + 1 > u64::MAX {
        u64::MAX as nat
    } else {
        max_id(s) + 1
    }
}

/// One past the largest id of the stored tasks (saturating).
fn next_id_from_tasks(store: &TaskStore) -> (r: u64)
    ensures
        r == next_id_spec(store.tasks@),
{
    let mut m: u64 = 0;
    let mut i: usize = 0;
    while i < store.tasks.len()
        invariant
            i <= store.tasks@.len(),
            m as nat == max_id(store.tasks@.take(i as int)),
        decreases store.tasks.len() - i,
    {
        proof {
            assert(store.tasks@.take(i + 1).drop_last() =~= store.tasks@.take(i as int));
        }
        if store.tasks[i].id > m {
            m = store.tasks[i].id;
        }
        i = i + 1;
    }
    proof {
        assert(store.tasks@.take(i as int) =~= store.tasks@);
    }
    m.saturating_add(1)
}

/// What loading does to a store read from disk: a next id of 0 is replaced
/// by one past the largest task id.
pub fn settle_loaded_store(store: &mut TaskStore)
    ensures
        final(store).tasks@ == old(store).tasks@,
        old(store).next_id == 0 ==> final(store).next_id == next_id_spec(old(store).tasks@),
        old(store).next_id != 0 ==> final(store).next_id == old(store).next_id,
{
    if store.next_id == 0 {
        store.next_id = next_id_from_tasks(store);
    }
}

/// What loading decides about a configuration file: `None` when it is missing
/// or empty (a default one is created), `Some(None)` when it does not parse (a
/// default one replaces it), `Some(Some(c))` when it parses.
pub fn settle_loaded_config(read: Option<Option<Config>>) -> (r: LoadedConfig)
    ensures
        read is None ==> r.status == ConfigLoadStatus::Created && r.config.i18n.locale@
            == "en_US"@,
        read matches Some(None) ==> r.status == ConfigLoadStatus::ResetInvalid
            && r.config.i18n.locale@ == "en_US"@,
        read matches Some(Some(c)) ==> r.status == ConfigLoadStatus::Loaded && r.config == c,
{
    match read {
        None => LoadedConfig { config: Config::default(), status: ConfigLoadStatus::Created },
        Some(None) => LoadedConfig {
            config: Config::default(),
            status: ConfigLoadStatus::ResetInvalid,
        },
        Some(Some(config)) => LoadedConfig { config, status: ConfigLoadStatus::Loaded },
    }
}

/// Whether the configuration must be written back after loading.
pub fn config_needs_save(status: ConfigLoadStatus) -> (r: bool)
    ensures
        r == (status != ConfigLoadStatus::Loaded),
{
    status != ConfigLoadStatus::Loaded
}

/// Every id is at most the largest one.
proof fn lemma_max_id_bounds(s: Seq<Task>)
    ensures
        forall|i: int| 0 <= i < s.len() ==> (#[trigger] s[i]).id <= max_id(s),
    decreases s.len(),
{
    if s.len() > 0 {
        lemma_max_id_bounds(s.drop_last());
        assert forall|i: int| 0 <= i < s.len() implies (#[trigger] s[i]).id <= max_id(s) by {
            if i < s.len() - 1 {
                assert(s[i] == s.drop_last()[i]);
            }
        }
    }
}

/// Law: after loading, a store whose next id was missing gets one that lies
/// above every task's id (unless an id is already the largest `u64`), so the
/// next task added gets a fresh id.
pub proof fn law_settled_next_id_is_fresh(s: Seq<Task>)
    requires
        max_id(s) < u64::MAX,
    ensures
        forall|i: int| 0 <= i < s.len() ==> (#[trigger] s[i]).id < next_id_spec(s),
{
    lemma_max_id_bounds(s);
}

} // verus!
