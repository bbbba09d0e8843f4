use process_exporter::loader::{LoadPhase, LoaderError, LoaderState};

#[test]
fn successful_load_opens_the_tables() {
    let mut l = LoaderState::new();
    assert_eq!(l.tables_available(), Err(LoaderError::NotLoaded));
    assert_eq!(l.begin_load(), Ok(()));
    assert_eq!(l.phase(), LoadPhase::Loading);
    assert_eq!(l.tables_available(), Err(LoaderError::NotLoaded));
    assert_eq!(l.finish_load(true), Ok(()));
    assert_eq!(l.phase(), LoadPhase::Loaded);
    assert_eq!(l.tables_available(), Ok(()));
}

#[test]
fn failed_load_is_terminal() {
    let mut l = LoaderState::new();
    l.begin_load().unwrap();
    l.finish_load(false).unwrap();
    assert_eq!(l.phase(), LoadPhase::LoadFailed);
    assert_eq!(l.begin_load(), Err(LoaderError::AlreadyStarted));
    assert_eq!(l.finish_load(true), Err(LoaderError::NotLoading));
    assert_eq!(l.phase(), LoadPhase::LoadFailed);
    assert_eq!(l.tables_available(), Err(LoaderError::NotLoaded));
}
