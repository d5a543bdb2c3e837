use windows_registry_searcher::ordered_set::OrderedStringSet;
use windows_registry_searcher::root::Root;
use windows_registry_searcher::worker_manager::{SubkeyListing, SupervisorStep, WorkerManager};
use windows_registry_searcher::{RegType, RegValue};

fn listing(subkeys: Vec<&str>, values: Vec<(&str, RegType, Vec<u8>)>) -> SubkeyListing {
    SubkeyListing {
        subkeys: subkeys.into_iter().map(|s| Ok(s.to_string())).collect(),
        values: values
            .into_iter()
            .map(|(n, t, b)| Ok((n.to_string(), RegValue { vtype: t, bytes: b })))
            .collect(),
    }
}

fn fresh_engine(terms: Vec<&str>, threads: usize) -> WorkerManager {
    WorkerManager::new(
        terms.into_iter().map(|t| t.to_string()).collect(),
        threads,
        OrderedStringSet::new(),
    )
}

fn mock_open(path: &str) -> Result<SubkeyListing, String> {
    match path {
        "Software" => Ok(listing(vec!["Vendor", "Other"], vec![])),
        "Software\\Vendor" => Ok(listing(vec!["Chrome"], vec![])),
        "Software\\Vendor\\Chrome" => {
            Ok(listing(vec![], vec![("Version", RegType::RegSz, b"1.2.3".to_vec())]))
        },
        "Software\\Other" => Ok(listing(vec![], vec![("k", RegType::RegSz, b"v".to_vec())])),
        _ => Err(String::from("missing key")),
    }
}

#[test]
fn crawl_records_matching_key_and_counts_callbacks() {
    let mut engine = fresh_engine(vec!["chrome"], 1);
    engine.seed_from_enumeration(Root::HkeyLocalMachine, vec![Ok(String::from("Software"))]);
    assert_eq!(engine.keys_seen, 1);
    while let Some((root, path)) = engine.get_work() {
        let outcome = mock_open(&path);
        engine.process_work_item(root, path, outcome);
    }
    assert_eq!(engine.keys_seen, 4);
    assert_eq!(engine.values_seen, 2);
    assert_eq!(engine.results.len(), 1);
    assert_eq!(engine.results.get(0).as_str(), "HKEY_LOCAL_MACHINE\\Software\\Vendor\\Chrome");
    assert_eq!(engine.errors.len(), 0);
}

#[test]
fn empty_value_name_is_shown_as_default() {
    let mut engine = fresh_engine(vec!["abc"], 1);
    engine.process_work_item(
        Root::HkeyLocalMachine,
        String::from("Key"),
        Ok(listing(vec![], vec![("", RegType::RegSz, b"xyzabc".to_vec())])),
    );
    assert_eq!(engine.results.len(), 1);
    assert_eq!(
        engine.results.get(0).as_str(),
        "HKEY_LOCAL_MACHINE\\Key\\(Default) = \"xyzabc\" (REG_SZ)"
    );
}

#[test]
fn dword_data_matches_as_decimal() {
    let mut engine = fresh_engine(vec!["42"], 1);
    engine.process_work_item(
        Root::HkeyCurrentUser,
        String::from("Speed"),
        Ok(listing(vec![], vec![("Limit", RegType::RegDword, vec![0x2A, 0x00, 0x00, 0x00])])),
    );
    assert_eq!(engine.results.len(), 1);
    assert_eq!(
        engine.results.get(0).as_str(),
        "HKEY_CURRENT_USER\\Speed\\Limit = \"42\" (REG_DWORD)"
    );
}

#[test]
fn multi_sz_data_matches_through_its_join() {
    let mut engine = fresh_engine(vec!["b"], 1);
    engine.process_work_item(
        Root::HkeyUsers,
        String::from("List"),
        Ok(listing(vec![], vec![("Items", RegType::RegMultiSz, b"a\0b\0c\0".to_vec())])),
    );
    assert_eq!(engine.results.len(), 1);
    assert_eq!(
        engine.results.get(0).as_str(),
        "HKEY_USERS\\List\\Items = \"a, b, c\" (REG_MULTI_SZ)"
    );
}

#[test]
fn matching_is_case_insensitive_both_ways() {
    let engine = fresh_engine(vec!["ChRoMe"], 1);
    assert!(engine.string_matches("Software\\CHROME\\Settings"));
    assert!(engine.string_matches("chrome"));
    assert!(!engine.string_matches("firefox"));
    assert!(engine.any_string_matches("nothing", "still Chrome here"));
    assert!(!engine.any_string_matches("nothing", "nothing else"));
}

#[test]
fn open_failure_is_recorded_and_the_item_dropped() {
    let mut engine = fresh_engine(vec!["x"], 1);
    engine.process_work_item(
        Root::HkeyLocalMachine,
        String::from("Locked"),
        Err(String::from("denied")),
    );
    assert_eq!(engine.keys_seen, 0);
    assert_eq!(engine.values_seen, 0);
    assert_eq!(engine.errors.len(), 1);
    assert_eq!(
        engine.errors.get(0).as_str(),
        "Locked: HKEY_LOCAL_MACHINE, Key error: \"denied\""
    );
    assert!(engine.get_work().is_none());
}

#[test]
fn enumeration_failures_are_recorded_not_counted() {
    let mut engine = fresh_engine(vec!["x"], 1);
    let outcome = Ok(SubkeyListing {
        subkeys: vec![Ok(String::from("Child")), Err(String::from("boom"))],
        values: vec![Err(String::from("bad value"))],
    });
    engine.process_work_item(Root::HkeyUsers, String::from("P"), outcome);
    assert_eq!(engine.keys_seen, 1);
    assert_eq!(engine.values_seen, 0);
    assert_eq!(engine.errors.len(), 2);
    assert!(engine.errors.contains("P, Subkey error: \"boom\""));
    assert!(engine.errors.contains("P, Value error: \"bad value\""));
    let (root, path) = engine.get_work().unwrap();
    assert!(matches!(root, Root::HkeyUsers));
    assert_eq!(path, "P\\Child");
}

#[test]
fn seeding_failures_use_the_hive_name() {
    let mut engine = fresh_engine(vec![], 1);
    engine.seed_from_enumeration(Root::HkeyCurrentConfig, vec![Err(String::from("no access"))]);
    assert_eq!(engine.keys_seen, 0);
    assert_eq!(engine.errors.len(), 1);
    assert_eq!(
        engine.errors.get(0).as_str(),
        "HKEY_CURRENT_CONFIG, Subkey error: \"no access\""
    );
}

#[test]
fn quiescence_with_zero_work_is_immediate() {
    let mut engine = fresh_engine(vec![], 2);
    assert!(matches!(engine.supervisor_step(), SupervisorStep::Sleep));
    engine.begin_wait();
    engine.begin_wait();
    assert!(engine.quiescent());
    assert!(matches!(engine.supervisor_step(), SupervisorStep::Finish));
    assert_eq!(engine.keys_seen, 0);
    assert_eq!(engine.values_seen, 0);
    assert!(engine.get_work().is_none());
}

#[test]
fn supervisor_wakes_waiters_over_a_nonempty_queue() {
    let mut engine = fresh_engine(vec![], 2);
    engine.feed_queue(vec![(Root::HkeyUsers, String::from("A"))]);
    engine.begin_wait();
    engine.begin_wait();
    assert!(matches!(engine.supervisor_step(), SupervisorStep::WakeWorkers));
    engine.end_wait();
    assert!(matches!(engine.supervisor_step(), SupervisorStep::Sleep));
    engine.end_wait();
    let (_, path) = engine.get_work().unwrap();
    assert_eq!(path, "A");
    assert!(engine.quiescent() == false);
    engine.begin_wait();
    engine.begin_wait();
    assert!(engine.quiescent());
}

#[test]
fn queue_drains_even_when_items_spawn_children() {
    let mut engine = fresh_engine(vec![], 4);
    engine.seed_from_enumeration(Root::HkeyLocalMachine, vec![Ok(String::from("K"))]);
    let mut processed: usize = 0;
    while let Some((root, path)) = engine.get_work() {
        let depth = path.matches('\\').count();
        let outcome = if depth < 2 {
            Ok(listing(vec!["c0", "c1", "c2", "c3", "c4"], vec![]))
        } else {
            Ok(listing(vec![], vec![]))
        };
        engine.process_work_item(root, path, outcome);
        processed += 1;
    }
    assert_eq!(processed, 31);
    assert_eq!(engine.keys_seen, 31);
    assert!(engine.get_work().is_none());
}

#[test]
fn results_are_deduplicated_across_items() {
    let mut engine = fresh_engine(vec!["dup"], 1);
    let outcome = || {
        Ok(listing(vec![], vec![("Name", RegType::RegSz, b"dup".to_vec())]))
    };
    engine.process_work_item(Root::HkeyUsers, String::from("P"), outcome());
    engine.process_work_item(Root::HkeyUsers, String::from("P"), outcome());
    assert_eq!(engine.results.len(), 1);
    assert_eq!(engine.values_seen, 2);
}
