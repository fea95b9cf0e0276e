use todox::model::{Priority, Task, TaskStatus, TaskStore};
use todox::clock::Timestamp;
use todox::storage::{
    config_file_for, config_needs_save, data_file_under, default_data_file, i18n_dir_for, resolve_data_file,
    settle_loaded_config, settle_loaded_store, Config, ConfigLoadStatus, I18nConfig,
};

#[test]
fn default_path_uses_hidden_todox_dir() {
    let resolved = default_data_file().unwrap();
    let components = std::path::Path::new(&resolved)
        .iter()
        .map(|part| part.to_string_lossy().to_string())
        .collect::<Vec<_>>();
    assert!(components.windows(2).any(|window| window == [".todox", "tasks.json"]));
}

#[test]
fn config_and_i18n_paths_follow_data_file_parent() {
    let data = "/tmp/demo/tasks.json";
    assert_eq!(config_file_for(data).unwrap(), "/tmp/demo/config.json");
    assert_eq!(i18n_dir_for(data).unwrap(), "/tmp/demo/i18n");
}

#[test]
fn a_path_without_parent_is_refused() {
    match config_file_for("") {
        Err(todox::error::AppError::Io(kind, msg)) => {
            assert_eq!(kind, todox::error::IoKind::InvalidInput);
            assert_eq!(msg, "invalid data file path: ");
        }
        other => panic!("unexpected {:?}", other),
    }
    assert!(matches!(
        i18n_dir_for("/"),
        Err(todox::error::AppError::Io(todox::error::IoKind::InvalidInput, _))
    ));
    assert!(matches!(
        config_file_for("/"),
        Err(todox::error::AppError::Io(todox::error::IoKind::InvalidInput, _))
    ));
}

#[test]
fn given_data_file_is_used_as_is() {
    assert_eq!(resolve_data_file(Some("/x/y.json".to_string())).unwrap(), "/x/y.json");
}

#[test]
fn default_config_is_english() {
    assert_eq!(Config::default().i18n.locale, "en_US");
}

fn task(id: u64) -> Task {
    let t = Timestamp { secs: 0, nanos: 0 };
    Task {
        id,
        title: format!("t{}", id),
        notes: String::new(),
        priority: Priority::P2,
        due_date: None,
        status: TaskStatus::Active,
        created_at: t,
        updated_at: t,
        completed_at: None,
    }
}

#[test]
fn missing_next_id_becomes_one_past_the_largest() {
    let mut store = TaskStore { next_id: 0, tasks: vec![task(4), task(9), task(2)] };
    settle_loaded_store(&mut store);
    assert_eq!(store.next_id, 10);
    assert_eq!(store.tasks.len(), 3);

    let mut empty = TaskStore { next_id: 0, tasks: Vec::new() };
    settle_loaded_store(&mut empty);
    assert_eq!(empty.next_id, 1);

    let mut kept = TaskStore { next_id: 42, tasks: vec![task(4)] };
    settle_loaded_store(&mut kept);
    assert_eq!(kept.next_id, 42);

    let mut full = TaskStore { next_id: 0, tasks: vec![task(u64::MAX)] };
    settle_loaded_store(&mut full);
    assert_eq!(full.next_id, u64::MAX);
}

#[test]
fn config_loading_decisions() {
    let created = settle_loaded_config(None);
    assert_eq!(created.status, ConfigLoadStatus::Created);
    assert_eq!(created.config.i18n.locale, "en_US");
    let reset = settle_loaded_config(Some(None));
    assert_eq!(reset.status, ConfigLoadStatus::ResetInvalid);
    assert_eq!(reset.config.i18n.locale, "en_US");
    let zh = Config { i18n: I18nConfig { locale: "zh_CN".to_string() } };
    let loaded = settle_loaded_config(Some(Some(zh.clone())));
    assert_eq!(loaded.status, ConfigLoadStatus::Loaded);
    assert_eq!(loaded.config, zh);
    assert!(config_needs_save(ConfigLoadStatus::Created));
    assert!(config_needs_save(ConfigLoadStatus::ResetInvalid));
    assert!(!config_needs_save(ConfigLoadStatus::Loaded));
}

#[test]
fn data_file_sits_in_hidden_dir_under_home() {
    assert_eq!(data_file_under(Some("/home/ann".to_string())).unwrap(), "/home/ann/.todox/tasks.json");
    assert!(matches!(data_file_under(None), Err(todox::error::AppError::MissingHomeDir)));
}
