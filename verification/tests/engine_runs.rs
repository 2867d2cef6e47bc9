use bitwig_launcher::{
    Action, Candidate, Config, Engine, Event, LaunchError, Stage, VersionSet,
};

fn strings(names: &[&str]) -> Vec<String> {
    names.iter().map(|name| name.to_string()).collect()
}

fn set(names: &[&str]) -> VersionSet {
    VersionSet::from_names(&strings(names))
}

fn installed(names: &[&str]) -> Event {
    Event::Listed(Some(
        names
            .iter()
            .map(|name| Candidate { name: name.to_string(), is_dir: true, has_entry_file: true })
            .collect(),
    ))
}

fn record(path: &str, known: &[&str], last_selected: &str, remember: bool) -> Config {
    Config {
        path: path.to_string(),
        version: set(known),
        last_selected: last_selected.to_string(),
        remember,
    }
}

fn launch(root: &str, version: &str) -> Action {
    Action::Launch { root: root.to_string(), version: version.to_string() }
}

fn list(items: &[&str], preselected: Option<&str>) -> Action {
    Action::PickOne { items: strings(items), preselected: preselected.map(|name| name.to_string()) }
}

fn ok() -> Event {
    Event::LaunchFinished(Ok(()))
}

fn failed(error: LaunchError) -> Event {
    Event::LaunchFinished(Err(error))
}

#[test]
fn a_run_begins_by_listing_the_installation_directory() {
    let engine = Engine::new(record("C:\\Bitwig", &[], "", false));
    assert_eq!(engine.stage(), &Stage::Scanning);
    assert_eq!(engine.pending(), Action::Scan { root: "C:\\Bitwig".to_string() });
    assert!(!engine.is_finished());
    assert!(engine.discovered().is_empty());
}

#[test]
fn changed_versions_forget_the_remembered_choice() {
    let engine = Engine::new(record("C:\\Bitwig", &["4.3"], "4.3", true));
    let engine = engine.step(installed(&["4.4", "4.3"]));
    assert_eq!(engine.stage(), &Stage::Interactive);
    assert!(!engine.config().remember);
    assert!(engine.config().version == set(&["4.3", "4.4"]));
    assert_eq!(engine.pending(), list(&["4.3", "4.4"], Some("4.3")));
}

#[test]
fn a_single_version_is_started_without_asking() {
    let engine = Engine::new(record("C:\\Bitwig", &[], "", false));
    let engine = engine.step(installed(&["5.0"]));
    assert_eq!(engine.stage(), &Stage::OneVersionAutoLaunch);
    assert_eq!(engine.pending(), launch("C:\\Bitwig", "5.0"));
    let engine = engine.step(ok());
    assert_eq!(engine.stage(), &Stage::Launched);
    assert!(engine.is_finished());
    assert_eq!(engine.pending(), Action::Persist);
    let kept = engine.into_config();
    assert!(kept == record("C:\\Bitwig", &["5.0"], "5.0", false));
}

#[test]
fn a_single_version_keeps_remember_as_it_stands() {
    let engine = Engine::new(record("C:\\Bitwig", &["5.0"], "5.0", true));
    let engine = engine.step(installed(&["5.0"])).step(ok());
    assert!(engine.into_config() == record("C:\\Bitwig", &["5.0"], "5.0", true));

    let engine = Engine::new(record("C:\\Bitwig", &["4.4"], "4.4", true));
    let engine = engine.step(installed(&["5.0"])).step(ok());
    assert!(engine.into_config() == record("C:\\Bitwig", &["5.0"], "5.0", false));
}

#[test]
fn an_empty_directory_asks_for_another_and_goes_on_from_there() {
    let engine = Engine::new(record("C:\\Nowhere", &[], "", false));
    let engine = engine.step(Event::Listed(None));
    assert_eq!(engine.stage(), &Stage::EmptyPrompt);
    assert_eq!(engine.pending(), Action::PickDirectory);
    let engine = engine.step(Event::DirectoryPicked(Some("D:\\Bitwig".to_string())));
    assert_eq!(engine.stage(), &Stage::Rescanning);
    assert_eq!(engine.pending(), Action::Scan { root: "D:\\Bitwig".to_string() });
    let engine = engine.step(installed(&["5.0"]));
    assert_eq!(engine.pending(), launch("D:\\Bitwig", "5.0"));
    let engine = engine.step(ok());
    assert_eq!(engine.stage(), &Stage::Launched);
    assert!(engine.into_config() == record("D:\\Bitwig", &["5.0"], "5.0", false));
}

#[test]
fn the_directory_is_asked_for_only_once() {
    let engine = Engine::new(record("C:\\Nowhere", &["4.3"], "4.3", true));
    let engine = engine
        .step(installed(&[]))
        .step(Event::DirectoryPicked(Some("D:\\Nothing".to_string())))
        .step(Event::Listed(None));
    assert_eq!(engine.stage(), &Stage::Interactive);
    assert_eq!(engine.pending(), list(&[], None));
    assert!(engine.config() == &record("D:\\Nothing", &[], "4.3", false));
}

#[test]
fn a_declined_directory_leaves_the_empty_list() {
    let engine = Engine::new(record("C:\\Nowhere", &["4.3"], "4.3", true));
    let engine = engine.step(Event::Listed(None)).step(Event::DirectoryPicked(None));
    assert_eq!(engine.stage(), &Stage::Interactive);
    assert_eq!(engine.pending(), list(&[], None));
    let engine = engine.step(Event::Closed { selection: None, remember: false });
    assert_eq!(engine.stage(), &Stage::ClosedWithoutLaunch);
    assert!(engine.into_config() == record("C:\\Nowhere", &[], "", false));
}

#[test]
fn nothing_known_and_nothing_found_keeps_the_remembered_choice() {
    let engine = Engine::new(record("C:\\Nowhere", &[], "4.3", true));
    let engine = engine.step(Event::Listed(None)).step(Event::DirectoryPicked(None));
    assert_eq!(engine.stage(), &Stage::RememberedAutoLaunch);
    assert_eq!(engine.pending(), launch("C:\\Nowhere", "4.3"));
}

#[test]
fn a_remembered_choice_is_started_without_asking() {
    let engine = Engine::new(record("C:\\Bitwig", &["4.3", "4.4"], "4.4", true));
    let engine = engine.step(installed(&["4.3", "4.4"]));
    assert_eq!(engine.stage(), &Stage::RememberedAutoLaunch);
    assert_eq!(engine.pending(), launch("C:\\Bitwig", "4.4"));
    let engine = engine.step(ok());
    assert_eq!(engine.stage(), &Stage::Launched);
    assert!(engine.into_config() == record("C:\\Bitwig", &["4.3", "4.4"], "4.4", true));
}

#[test]
fn a_remembered_choice_that_fails_falls_back_to_the_list() {
    for error in [LaunchError::NotFound, LaunchError::SpawnFailed] {
        let engine = Engine::new(record("C:\\Bitwig", &["4.3", "4.4"], "4.4", true));
        let engine = engine.step(installed(&["4.4", "4.3"])).step(failed(error));
        assert_eq!(engine.stage(), &Stage::Interactive);
        assert_eq!(engine.pending(), list(&["4.3", "4.4"], Some("4.4")));
        assert!(engine.config() == &record("C:\\Bitwig", &["4.3", "4.4"], "4.4", true));
    }
}

#[test]
fn a_single_version_that_fails_is_tried_again_if_remembered() {
    let engine = Engine::new(record("C:\\Bitwig", &["5.0"], "5.0", true));
    let engine = engine.step(installed(&["5.0"]));
    assert_eq!(engine.stage(), &Stage::OneVersionAutoLaunch);
    let engine = engine.step(failed(LaunchError::NotFound));
    assert_eq!(engine.stage(), &Stage::RememberedAutoLaunch);
    assert_eq!(engine.pending(), launch("C:\\Bitwig", "5.0"));
    let engine = engine.step(failed(LaunchError::SpawnFailed));
    assert_eq!(engine.stage(), &Stage::Interactive);
    assert_eq!(engine.pending(), list(&["5.0"], Some("5.0")));
    assert!(engine.config().remember);
}

#[test]
fn a_single_version_that_fails_falls_back_to_the_list() {
    for error in [LaunchError::NotFound, LaunchError::SpawnFailed] {
        let engine = Engine::new(record("C:\\Bitwig", &["4.4"], "4.4", true));
        let engine = engine.step(installed(&["5.0"])).step(failed(error));
        assert_eq!(engine.stage(), &Stage::Interactive);
        assert_eq!(engine.pending(), list(&["5.0"], None));
        assert!(engine.config() == &record("C:\\Bitwig", &["5.0"], "4.4", false));
    }
}

#[test]
fn the_list_is_sorted_and_marks_the_last_selection() {
    let engine = Engine::new(record("C:\\Bitwig", &[], "4.10", false));
    let engine = engine.step(installed(&["5.0", "4.3", "4.10", "4.4"]));
    assert_eq!(engine.pending(), list(&["4.10", "4.3", "4.4", "5.0"], Some("4.10")));

    let engine = Engine::new(record("C:\\Bitwig", &[], "3.9", false));
    let engine = engine.step(installed(&["5.0", "4.3"]));
    assert_eq!(engine.pending(), list(&["4.3", "5.0"], None));
}

#[test]
fn the_users_choice_is_started_and_kept() {
    let engine = Engine::new(record("C:\\Bitwig", &["4.3"], "4.3", false));
    let engine = engine.step(installed(&["4.3", "4.4"]));
    let engine = engine.step(Event::LaunchRequested {
        selection: Some("4.4".to_string()),
        remember: true,
    });
    assert_eq!(
        engine.stage(),
        &Stage::UserLaunch { chosen: "4.4".to_string(), remember: true }
    );
    assert_eq!(engine.pending(), launch("C:\\Bitwig", "4.4"));
    assert!(engine.config() == &record("C:\\Bitwig", &["4.3", "4.4"], "4.3", false));
    let engine = engine.step(ok());
    assert_eq!(engine.stage(), &Stage::Launched);
    assert!(engine.into_config() == record("C:\\Bitwig", &["4.3", "4.4"], "4.4", true));
}

#[test]
fn the_users_choice_that_fails_leaves_everything_as_it_was() {
    for error in [LaunchError::NotFound, LaunchError::SpawnFailed] {
        let engine = Engine::new(record("C:\\Bitwig", &["4.3"], "4.3", false));
        let engine = engine
            .step(installed(&["4.3", "4.4"]))
            .step(Event::LaunchRequested { selection: Some("4.4".to_string()), remember: true })
            .step(failed(error));
        assert_eq!(engine.stage(), &Stage::Interactive);
        assert_eq!(engine.pending(), list(&["4.3", "4.4"], Some("4.3")));
        assert!(engine.config() == &record("C:\\Bitwig", &["4.3", "4.4"], "4.3", false));
        let engine = engine
            .step(Event::LaunchRequested { selection: Some("4.3".to_string()), remember: false })
            .step(ok());
        assert!(engine.into_config() == record("C:\\Bitwig", &["4.3", "4.4"], "4.3", false));
    }
}

#[test]
fn a_request_without_a_selection_does_nothing() {
    let engine = Engine::new(record("C:\\Bitwig", &[], "", false));
    let engine = engine.step(installed(&["4.3", "4.4"]));
    let engine = engine.step(Event::LaunchRequested { selection: None, remember: true });
    assert_eq!(engine.stage(), &Stage::Interactive);
    assert!(engine.config() == &record("C:\\Bitwig", &["4.3", "4.4"], "", false));
}

#[test]
fn a_selection_that_is_not_on_the_list_counts_as_none() {
    let engine = Engine::new(record("C:\\Bitwig", &[], "", false));
    let engine = engine.step(installed(&["4.3", "4.4"]));
    let engine = engine.step(Event::LaunchRequested {
        selection: Some("9.9".to_string()),
        remember: true,
    });
    assert_eq!(engine.stage(), &Stage::Interactive);
    let engine = engine.step(Event::Closed { selection: Some("9.9".to_string()), remember: false });
    assert!(engine.into_config() == record("C:\\Bitwig", &["4.3", "4.4"], "", false));
}

#[test]
fn closing_the_list_keeps_the_selection_and_the_box() {
    let engine = Engine::new(record("C:\\Bitwig", &["4.3"], "4.3", false));
    let engine = engine
        .step(installed(&["4.3", "4.4"]))
        .step(Event::Closed { selection: Some("4.4".to_string()), remember: true });
    assert_eq!(engine.stage(), &Stage::ClosedWithoutLaunch);
    assert!(engine.is_finished());
    assert_eq!(engine.pending(), Action::Persist);
    assert!(engine.into_config() == record("C:\\Bitwig", &["4.3", "4.4"], "4.4", true));
}

#[test]
fn closing_the_list_with_nothing_selected_clears_the_selection() {
    let engine = Engine::new(record("C:\\Bitwig", &["4.3", "4.4"], "4.3", false));
    let engine = engine
        .step(installed(&["4.3", "4.4"]))
        .step(Event::Closed { selection: None, remember: true });
    assert!(engine.into_config() == record("C:\\Bitwig", &["4.3", "4.4"], "", true));
}

#[test]
fn an_event_that_was_not_asked_for_changes_nothing() {
    let engine = Engine::new(record("C:\\Bitwig", &["4.3"], "4.3", true));
    let engine = engine
        .step(ok())
        .step(Event::DirectoryPicked(Some("D:\\".to_string())))
        .step(Event::Closed { selection: None, remember: false });
    assert_eq!(engine.stage(), &Stage::Scanning);
    assert!(engine.config() == &record("C:\\Bitwig", &["4.3"], "4.3", true));

    let engine = engine.step(installed(&["4.3", "4.4"]));
    let engine = engine.step(installed(&["5.0"])).step(Event::DirectoryPicked(None)).step(ok());
    assert_eq!(engine.stage(), &Stage::Interactive);
    assert_eq!(engine.pending(), list(&["4.3", "4.4"], Some("4.3")));
}

#[test]
fn a_finished_run_stays_finished() {
    let engine = Engine::new(record("C:\\Bitwig", &[], "", false));
    let engine = engine.step(installed(&["5.0"])).step(ok());
    let engine = engine
        .step(installed(&["4.3", "4.4"]))
        .step(failed(LaunchError::NotFound))
        .step(Event::Closed { selection: None, remember: true });
    assert_eq!(engine.stage(), &Stage::Launched);
    assert!(engine.into_config() == record("C:\\Bitwig", &["5.0"], "5.0", false));
}

#[test]
fn only_installed_versions_are_discovered() {
    let engine = Engine::new(record("C:\\Bitwig", &[], "", false));
    let engine = engine.step(Event::Listed(Some(vec![
        Candidate { name: "4.3".to_string(), is_dir: true, has_entry_file: true },
        Candidate { name: "4.4".to_string(), is_dir: true, has_entry_file: false },
        Candidate { name: "readme".to_string(), is_dir: false, has_entry_file: false },
    ])));
    assert!(engine.discovered() == &set(&["4.3"]));
    assert_eq!(engine.pending(), launch("C:\\Bitwig", "4.3"));
}

fn declined_run(config: Config, found: &[&str], launches: bool, remember: bool) -> Config {
    let mut engine = Engine::new(config);
    loop {
        let event = match engine.pending() {
            Action::Scan { .. } => installed(found),
            Action::PickDirectory => Event::DirectoryPicked(None),
            Action::Launch { .. } => {
                if launches {
                    ok()
                } else {
                    failed(LaunchError::NotFound)
                }
            },
            Action::PickOne { preselected, .. } => Event::Closed { selection: preselected, remember },
            Action::Persist => return engine.into_config(),
        };
        engine = engine.step(event);
    }
}

#[test]
fn a_second_declined_run_changes_nothing() {
    let founds: [&[&str]; 4] = [&[], &["5.0"], &["4.3", "4.4"], &["4.3", "4.4", "5.0"]];
    let records = [
        record("C:\\Bitwig", &[], "", false),
        record("C:\\Bitwig", &["4.3"], "4.3", true),
        record("C:\\Bitwig", &["4.3", "4.4"], "4.4", true),
        record("C:\\Bitwig", &["4.3", "4.4"], "9.9", true),
        record("C:\\Bitwig", &["5.0"], "5.0", false),
    ];
    for found in founds.iter() {
        for config in records.iter() {
            for launches in [false, true] {
                for (first_box, second_box) in [(false, false), (false, true), (true, false), (true, true)] {
                    let first = declined_run(config.clone(), found, launches, first_box);
                    let second = declined_run(first.clone(), found, launches, second_box);
                    assert!(first.version == set(found));
                    assert!(second.version == first.version);
                    assert_eq!(second.last_selected, first.last_selected);
                    assert_eq!(second.path, first.path);
                }
            }
        }
    }
}
