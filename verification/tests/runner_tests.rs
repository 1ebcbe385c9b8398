use hc_admin::clock::{sys_time, SysTime};
use hc_admin::error::HcError;
use hc_admin::launch::LaunchPhase;
use hc_admin::runner::{CmdRunner, CLOSE_CODE};

#[test]
fn try_new_connects_or_reports_port() {
    let runner = CmdRunner::try_new(1234, true).unwrap();
    assert_eq!(runner.admin_port(), 1234);
    assert!(runner.is_connected());
    assert!(!runner.is_busy());
    assert_eq!(CmdRunner::try_new(1234, false), Err(HcError::Connect { port: 1234 }));
}

#[test]
fn new_gives_connected_runner() {
    let runner = CmdRunner::new(77, true);
    assert_eq!(Ok(runner), CmdRunner::try_new(77, true));
}

#[test]
fn from_setup_uses_default_binary() {
    let launch = CmdRunner::from_setup(b"/tmp/s".to_vec(), 10);
    assert_eq!(launch.binary_path, b"holochain".to_vec());
    assert_eq!(launch.setup_path, b"/tmp/s".to_vec());
    assert_eq!(launch.forced_port, None);
    assert_eq!(launch.polls_left, 10);
    assert_eq!(launch.phase, LaunchPhase::Spawning);
}

#[test]
fn from_setup_with_bin_path_keeps_paths() {
    let launch = CmdRunner::from_setup_with_bin_path(b"/opt/hc".to_vec(), b"/tmp/s".to_vec(), 4);
    assert_eq!(launch.binary_path, b"/opt/hc".to_vec());
    assert_eq!(launch.setup_path, b"/tmp/s".to_vec());
    assert_eq!(launch.forced_port, None);
}

#[test]
fn from_launch_hands_on_failure() {
    assert_eq!(CmdRunner::from_launch(Err(HcError::LaunchTimeout), true), Err(HcError::LaunchTimeout));
    assert_eq!(CmdRunner::from_launch(Err(HcError::ProcessSpawn), true), Err(HcError::ProcessSpawn));
    assert_eq!(CmdRunner::from_launch(Ok(80), false), Err(HcError::Connect { port: 80 }));
    assert_eq!(CmdRunner::from_launch(Ok(80), true), CmdRunner::try_new(80, true));
}

#[test]
fn requests_are_answered_in_order() {
    let mut runner = CmdRunner::try_new(1, true).unwrap();
    let a = runner.command().unwrap();
    assert_eq!(a, 0);
    assert!(runner.is_busy());
    assert_eq!(runner.command(), Err(HcError::Request));
    assert_eq!(runner.respond(a + 1, true), Err(HcError::Request));
    assert!(runner.is_busy());
    assert_eq!(runner.respond(a, true), Ok(()));
    assert!(!runner.is_busy());
    let b = runner.command().unwrap();
    assert_eq!(b, 1);
    assert_eq!(runner.respond(a, true), Err(HcError::Request));
    assert_eq!(runner.respond(b, true), Ok(()));
}

#[test]
fn failed_exchange_frees_connection() {
    let mut runner = CmdRunner::try_new(1, true).unwrap();
    let a = runner.command().unwrap();
    assert_eq!(runner.respond(a, false), Err(HcError::Request));
    assert!(!runner.is_busy());
    assert_eq!(runner.command(), Ok(1));
}

#[test]
fn respond_without_request_is_refused() {
    let mut runner = CmdRunner::try_new(1, true).unwrap();
    assert_eq!(runner.respond(0, true), Err(HcError::Request));
    assert_eq!(runner, CmdRunner::new(1, true));
}

#[test]
fn closed_runner_cannot_be_reused() {
    let mut runner = CmdRunner::try_new(1, true).unwrap();
    assert_eq!(runner.close(), Some(CLOSE_CODE));
    assert!(runner.is_closed());
    assert_eq!(runner.command(), Err(HcError::Request));
    assert_eq!(runner.connect(true), Err(HcError::Connect { port: 1 }));
    assert_eq!(runner.close(), None);
    assert!(runner.is_closed());
    assert!(!runner.is_connected());
}

#[test]
fn closing_one_runner_leaves_other_open() {
    let mut first = CmdRunner::try_new(4000, true).unwrap();
    let mut second = CmdRunner::try_new(4001, true).unwrap();
    assert_eq!(first.close(), Some(CLOSE_CODE));
    assert!(second.is_connected());
    assert_eq!(second.command(), Ok(0));
    assert_eq!(second.admin_port(), 4001);
    assert_eq!(second.close(), Some(CLOSE_CODE));
}

#[test]
fn close_frame_carries_normal_closure_code() {
    let mut runner = CmdRunner::new(3, true);
    assert_eq!(runner.close(), Some(1000));
    assert_eq!(CLOSE_CODE, 1000);
}

#[test]
fn disconnected_runner_connects_once() {
    let mut runner = CmdRunner::disconnected(8);
    assert!(!runner.is_connected());
    assert_eq!(runner.command(), Err(HcError::Request));
    assert_eq!(runner.connect(true), Ok(()));
    assert!(runner.is_connected());
    assert_eq!(runner.connect(true), Err(HcError::Connect { port: 8 }));
    assert!(runner.is_connected());
}

#[test]
fn failed_connect_closes_runner() {
    let mut runner = CmdRunner::disconnected(8);
    assert_eq!(runner.connect(false), Err(HcError::Connect { port: 8 }));
    assert!(runner.is_closed());
    assert_eq!(runner.close(), None);
}

#[test]
fn closing_disconnected_runner_sends_no_frame() {
    let mut runner = CmdRunner::disconnected(8);
    assert_eq!(runner.close(), None);
    assert!(runner.is_closed());
}

#[test]
fn sys_time_keeps_the_reading_as_it_came() {
    assert_eq!(sys_time(0, 0), SysTime { seconds: 0, nanos: 0 });
    assert_eq!(sys_time(0, 1), SysTime { seconds: 0, nanos: 1 });
    assert_eq!(sys_time(1_600_000_000, 123_456_789), SysTime { seconds: 1_600_000_000, nanos: 123_456_789 });
    assert_eq!(sys_time(u64::MAX, 999_999_999), SysTime { seconds: u64::MAX, nanos: 999_999_999 });
}

#[test]
fn sys_time_tells_readings_a_nanosecond_apart() {
    let before = sys_time(0, 999);
    let after = sys_time(0, 1000);
    assert_ne!(before, after);
    assert_eq!(after.nanos - before.nanos, 1);
    assert_eq!(after.seconds, before.seconds);
}

#[test]
fn micros_are_cut_not_rounded() {
    assert_eq!(sys_time(0, 0).micros_cut_and_capped(), 0);
    assert_eq!(sys_time(0, 999).micros_cut_and_capped(), 0);
    assert_eq!(sys_time(0, 1000).micros_cut_and_capped(), 1);
    assert_eq!(sys_time(1, 999).micros_cut_and_capped(), 1_000_000);
    assert_eq!(sys_time(1_600_000_000, 123_456_789).micros_cut_and_capped(), 1_600_000_000_123_456);
    assert_eq!(sys_time(9_223_372_036_854, 775_807_999).micros_cut_and_capped(), i64::MAX);
}

#[test]
fn micros_beyond_the_range_are_capped() {
    assert_eq!(sys_time(9_223_372_036_854, 775_808_000).micros_cut_and_capped(), i64::MAX);
    assert_eq!(sys_time(9_223_372_036_855, 0).micros_cut_and_capped(), i64::MAX);
    assert_eq!(sys_time(u64::MAX, 0).micros_cut_and_capped(), i64::MAX);
}

#[test]
fn invoke_import_sys_time_test() {
    let time: SysTime = sys_time(1_604_000_000, 5);
    assert_eq!(time, SysTime { seconds: 1_604_000_000, nanos: 5 });
}
