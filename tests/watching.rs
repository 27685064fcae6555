use lua_desanitizer::configuration_reader::Configuration;
use lua_desanitizer::coordinator::{Action, Coordinator, Event, Phase, DIRECTORY_POLLING_TIME_SECS};
use lua_desanitizer::dcs_directory_finder::{get_dcs_directories, get_mission_scripting_paths};
use lua_desanitizer::file_monitor::{has_been_modified, Timestamp};

fn at(nanos: u128) -> Timestamp {
    Timestamp { nanos }
}

#[test]
fn later_modification_is_detected() {
    assert!(has_been_modified(Some(at(11)), at(10)));
    assert!(!has_been_modified(Some(at(10)), at(10)));
    assert!(!has_been_modified(Some(at(9)), at(10)));
}

#[test]
fn unreadable_modification_time_is_not_a_change() {
    assert!(!has_been_modified(None, Timestamp::epoch()));
}

#[test]
fn epoch_reference_sees_any_file_as_modified() {
    assert!(has_been_modified(Some(at(1)), Timestamp::epoch()));
}

fn path_of(a: &Action) -> String {
    match a {
        Action::CheckModified(p) | Action::ReadFile(p) | Action::WriteFile(p, _) => p.clone(),
        other => panic!("no path in {:?}", other),
    }
}

#[test]
fn full_cycle_rewrites_and_records_time() {
    let mut c = Coordinator::new(1);
    assert!(matches!(c.first_action(), Action::FindPaths));
    let a = c.step(Event::PathsFound(vec!["C:\\a.lua".to_string(), "C:\\b.lua".to_string()]));
    assert!(matches!(a, Action::WaitForStop(1)));
    let a = c.step(Event::PollTimeout);
    assert_eq!(path_of(&a), "C:\\a.lua");
    assert!(matches!(a, Action::CheckModified(_)));
    let a = c.step(Event::LastModified(Some(at(5))));
    assert!(matches!(a, Action::ReadFile(_)));
    let a = c.step(Event::ContentRead(Some("os = nil\nx = 1".to_string())));
    match a {
        Action::WriteFile(p, text) => {
            assert_eq!(p, "C:\\a.lua");
            assert_eq!(text, "--os = nil\r\nx = 1");
        }
        other => panic!("unexpected {:?}", other),
    }
    assert!(matches!(c.step(Event::WriteFinished(true)), Action::ReadClock));
    assert!(matches!(c.step(Event::ClockRead(at(7))), Action::WaitForStop(1)));
    assert_eq!(c.reference, at(7));
    assert_eq!(c.phase, Phase::Idle);
}

#[test]
fn two_polls_without_change_do_nothing() {
    let mut c = Coordinator::watching("f.lua".to_string(), 1);
    c.reference = at(100);
    for _ in 0..2 {
        assert!(matches!(c.step(Event::PollTimeout), Action::CheckModified(_)));
        assert!(matches!(c.step(Event::LastModified(Some(at(100)))), Action::WaitForStop(1)));
        assert_eq!(c.reference, at(100));
        assert_eq!(c.phase, Phase::Idle);
    }
}

#[test]
fn own_write_is_not_detected_but_a_later_edit_is() {
    let mut c = Coordinator::watching("f.lua".to_string(), 1);
    c.step(Event::PollTimeout);
    c.step(Event::LastModified(Some(at(50))));
    c.step(Event::ContentRead(Some("a = nil".to_string())));
    c.step(Event::WriteFinished(true));
    c.step(Event::ClockRead(at(60)));
    c.step(Event::PollTimeout);
    assert!(matches!(c.step(Event::LastModified(Some(at(60)))), Action::WaitForStop(1)));
    c.step(Event::PollTimeout);
    assert!(matches!(c.step(Event::LastModified(Some(at(61)))), Action::ReadFile(_)));
}

#[test]
fn failed_write_keeps_reference_and_retries() {
    let mut c = Coordinator::watching("f.lua".to_string(), 3);
    c.step(Event::PollTimeout);
    c.step(Event::LastModified(Some(at(50))));
    c.step(Event::ContentRead(Some("a = nil".to_string())));
    assert!(matches!(c.step(Event::WriteFinished(false)), Action::WaitForStop(3)));
    assert_eq!(c.reference, Timestamp::epoch());
    c.step(Event::PollTimeout);
    assert!(matches!(c.step(Event::LastModified(Some(at(50)))), Action::ReadFile(_)));
}

#[test]
fn failed_read_goes_back_to_waiting() {
    let mut c = Coordinator::watching("f.lua".to_string(), 1);
    c.step(Event::PollTimeout);
    c.step(Event::LastModified(Some(at(50))));
    assert!(matches!(c.step(Event::ContentRead(None)), Action::WaitForStop(1)));
    assert_eq!(c.reference, Timestamp::epoch());
}

#[test]
fn failed_stat_skips_the_cycle() {
    let mut c = Coordinator::watching("f.lua".to_string(), 1);
    c.step(Event::PollTimeout);
    assert!(matches!(c.step(Event::LastModified(None)), Action::WaitForStop(1)));
}

#[test]
fn no_candidate_backs_off() {
    let mut c = Coordinator::new(1);
    match c.step(Event::PathsFound(Vec::new())) {
        Action::Sleep(s) => assert_eq!(s, DIRECTORY_POLLING_TIME_SECS),
        other => panic!("unexpected {:?}", other),
    }
    assert!(matches!(c.step(Event::BackoffElapsed), Action::FindPaths));
    assert_eq!(c.phase, Phase::Locating);
}

#[test]
fn stop_signal_stops_for_good() {
    let mut c = Coordinator::watching("f.lua".to_string(), 1);
    assert!(matches!(c.step(Event::StopSignal), Action::Stop));
    assert!(matches!(c.step(Event::PollTimeout), Action::Stop));
    assert_eq!(c.phase, Phase::Stopped);
}

#[test]
fn unexpected_event_abandons_the_cycle() {
    let mut c = Coordinator::watching("f.lua".to_string(), 1);
    c.step(Event::PollTimeout);
    assert!(matches!(c.step(Event::WriteFinished(true)), Action::WaitForStop(1)));
    assert_eq!(c.phase, Phase::Idle);
}

#[test]
fn directories_in_lookup_order() {
    let d = get_dcs_directories(Some("C:\\Beta\\".to_string()), Some("C:\\Stable\\".to_string()));
    assert_eq!(d, vec!["C:\\Beta\\".to_string(), "C:\\Stable\\".to_string()]);
    let d = get_dcs_directories(None, Some("C:\\Stable\\".to_string()));
    assert_eq!(d, vec!["C:\\Stable\\".to_string()]);
    assert!(get_dcs_directories(None, None).is_empty());
}

#[test]
fn mission_scripting_path_is_appended() {
    let dirs = vec!["C:\\DCS\\".to_string(), "D:\\Games\\DCS\\".to_string()];
    let paths = get_mission_scripting_paths(&dirs);
    assert_eq!(
        paths,
        vec![
            "C:\\DCS\\Scripts\\MissionScripting.lua".to_string(),
            "D:\\Games\\DCS\\Scripts\\MissionScripting.lua".to_string()
        ]
    );
    assert!(get_mission_scripting_paths(&Vec::new()).is_empty());
}

#[test]
fn configuration_holds_its_options() {
    let c = Configuration { path: "C:\\x.lua".to_string(), polling_time: 5 };
    assert_eq!(c.path, "C:\\x.lua");
    assert_eq!(c.polling_time, 5);
}
