use cas::cli::run::{
    cmd_run, enter_run_lifecycle, leave_run_lifecycle, prepare_context, EnterStep, PollStep,
    PrepareEvent, PrepareStage, RunEvent, RunRefusal, RunStage, ShmPollLock,
};
use cas::errno::{ECHILD, EIO, EPIPE, ETIMEDOUT};
use cas::shm::name::{new_shm_name, shm_name};
use cas::shm::region::{
    check_region, check_unlink, region_failed, region_steps, RegionStep, ShmError,
};
use cas::shm::state::{ShmCounters, SHM_LAYOUT_SIZE};
use cas::syncing::serve::{ConnEvent, ConnStage, ServeEvent, ServeStage};
use cas::syncing::start::{ChildStatus, ReadyEvent, ReadyNext, ReadyRead, ReadyWait};

#[test]
fn the_first_command_starts_the_daemon() {
    let mut c = ShmCounters::new();
    assert_eq!(enter_run_lifecycle(&mut c), EnterStep::StartDaemon);
    assert!(!c.is_socket_ready());
    c.set_socket_ready(true);
    assert_eq!(enter_run_lifecycle(&mut c), EnterStep::JoinDaemon);
    assert!(c.is_socket_ready());
    assert_eq!(c.get_running_count(), 2);
    leave_run_lifecycle(&mut c);
    leave_run_lifecycle(&mut c);
    assert_eq!(c.get_running_count(), 0);
}

#[test]
fn the_daemon_ends_when_no_command_runs() {
    let mut c = ShmCounters { running_count: 1, socket_ready: 1 };
    let mut lock = ShmPollLock::new(5000);
    assert_eq!(lock.poll_shutdown(5999, &mut c), PollStep::GoOn);
    assert_eq!(lock.last_check, 5000);
    assert_eq!(lock.poll_shutdown(6000, &mut c), PollStep::GoOn);
    assert_eq!(lock.last_check, 6000);
    leave_run_lifecycle(&mut c);
    assert_eq!(lock.poll_shutdown(6500, &mut c), PollStep::GoOn);
    assert!(c.is_socket_ready());
    assert_eq!(lock.poll_shutdown(7000, &mut c), PollStep::Shutdown);
    assert!(!c.is_socket_ready());
}

#[test]
fn counters_wrap_as_atomics_do() {
    let mut c = ShmCounters { running_count: u32::MAX, socket_ready: 2 };
    assert!(!c.is_socket_ready());
    assert_eq!(c.increment(), u32::MAX);
    assert_eq!(c.running_count, 0);
    c.decrement();
    assert_eq!(c.running_count, u32::MAX);
}

#[test]
fn a_run_needs_a_command() {
    assert_eq!(cmd_run(&Vec::new()), Err(RunRefusal::NoCommand));
    assert_eq!(cmd_run(&vec!["ls".to_string()]), Ok(RunStage::Prepare));
}

#[test]
fn a_run_goes_through_its_stages() {
    let s = RunStage::Prepare.resume(RunEvent::Done);
    assert_eq!(s, RunStage::Enter);
    let s = s.resume(RunEvent::Entered(EnterStep::StartDaemon));
    assert_eq!(s, RunStage::StartDaemon);
    let s = s.resume(RunEvent::Done);
    assert_eq!(s, RunStage::WaitReady);
    let s = s.resume(RunEvent::Done);
    assert_eq!(s, RunStage::RunCommand);
    let s = s.resume(RunEvent::Exited(3));
    assert_eq!(s, RunStage::Leave(3));
    assert_eq!(s.resume(RunEvent::Done), RunStage::Exit(3));
}

#[test]
fn a_failed_run_gives_its_count_back() {
    assert_eq!(RunStage::Prepare.resume(RunEvent::Failed), RunStage::Fail);
    for stage in [RunStage::StartDaemon, RunStage::WaitReady, RunStage::RunCommand] {
        let s = stage.resume(RunEvent::Failed);
        assert_eq!(s, RunStage::GiveBack);
        assert_eq!(s.resume(RunEvent::Done), RunStage::Fail);
    }
}

fn seen(read: ReadyRead) -> ReadyNext {
    ReadyWait::Read.resume(ReadyEvent::Read(read))
}

fn child(status: ChildStatus) -> ReadyNext {
    ReadyWait::Child.resume(ReadyEvent::Child(status))
}

#[test]
fn the_signal_of_the_daemon() {
    assert_eq!(seen(ReadyRead::Bytes(1)), ReadyNext::Ready);
    assert_eq!(seen(ReadyRead::Bytes(0)), ReadyNext::Failed(EPIPE));
    assert_eq!(seen(ReadyRead::Failed), ReadyNext::Failed(EIO));
    assert_eq!(seen(ReadyRead::WouldBlock), ReadyNext::Do(ReadyWait::Child));
    assert_eq!(seen(ReadyRead::Interrupted), ReadyNext::Do(ReadyWait::Child));
    assert_eq!(child(ChildStatus::StillAlive), ReadyNext::Do(ReadyWait::Clock));
    assert_eq!(child(ChildStatus::Exited(0)), ReadyNext::Failed(ECHILD));
    assert_eq!(child(ChildStatus::Signaled(9)), ReadyNext::Failed(ECHILD));
    assert_eq!(child(ChildStatus::Failed(7)), ReadyNext::Failed(7));
    let late = ReadyEvent::Clock { past_deadline: true };
    assert_eq!(ReadyWait::Clock.resume(late), ReadyNext::Failed(ETIMEDOUT));
    let early = ReadyEvent::Clock { past_deadline: false };
    assert_eq!(ReadyWait::Clock.resume(early), ReadyNext::Do(ReadyWait::Sleep));
    assert_eq!(ReadyWait::Sleep.resume(ReadyEvent::Slept), ReadyNext::Do(ReadyWait::Read));
}

#[test]
fn the_daemon_serves_until_it_is_told_to_end() {
    let s = ServeStage::LoadState.resume(ServeEvent::Done);
    assert_eq!(s, ServeStage::Bind);
    let s = s.resume(ServeEvent::Done);
    assert_eq!(s, ServeStage::SignalReady);
    let s = s.resume(ServeEvent::Done);
    assert_eq!(s, ServeStage::Accept);
    let s = s.resume(ServeEvent::Failed);
    assert_eq!(s, ServeStage::Poll);
    assert_eq!(s.resume(ServeEvent::Done), ServeStage::Accept);
    let s = s.resume(ServeEvent::Shutdown);
    assert_eq!(s, ServeStage::Linger);
    let s = s.resume(ServeEvent::Done);
    assert_eq!(s, ServeStage::WriteOut);
    assert_eq!(s.resume(ServeEvent::Done), ServeStage::Exit(0));
    assert_eq!(ServeStage::LoadState.resume(ServeEvent::Failed), ServeStage::Exit(1));
    assert_eq!(ServeStage::Bind.resume(ServeEvent::Failed), ServeStage::Exit(1));
}

#[test]
fn a_connection_answers_requests_until_it_ends() {
    let s = ConnStage::ReadHeader.resume(ConnEvent::Done);
    assert_eq!(s, ConnStage::ReadRequest);
    let s = s.resume(ConnEvent::Done);
    assert_eq!(s, ConnStage::Answer);
    assert_eq!(s.resume(ConnEvent::Done), ConnStage::ReadHeader);
    assert_eq!(s.resume(ConnEvent::Failed), ConnStage::Broken);
    assert_eq!(ConnStage::ReadHeader.resume(ConnEvent::Ended), ConnStage::Closed);
    assert_eq!(ConnStage::ReadRequest.resume(ConnEvent::Ended), ConnStage::Broken);
}

#[test]
fn error_numbers_are_those_of_the_system() {
    assert_eq!((EPIPE, EIO, ECHILD, ETIMEDOUT), (libc::EPIPE, libc::EIO, libc::ECHILD, libc::ETIMEDOUT));
}

#[test]
fn segment_names_are_fresh() {
    assert_eq!(shm_name("abc"), "/cas-abc");
    let a = new_shm_name();
    let b = new_shm_name();
    assert_eq!(a.len(), 17);
    assert!(a.starts_with("/cas-"));
    assert!(a[5..].chars().all(|c| c.is_ascii_alphanumeric()));
    assert_ne!(a, b);
}

#[test]
fn segments_are_checked_before_they_are_made() {
    assert_eq!(check_region("/x", SHM_LAYOUT_SIZE), Ok(()));
    assert_eq!(check_region("/x\0", 0), Err(ShmError::InvalidSize(0)));
    assert_eq!(check_region("/x\0", 64), Err(ShmError::CString(0)));
    assert_eq!(check_unlink("a\0b"), Err(ShmError::CString(0)));
    assert_eq!(check_unlink("ab"), Ok(()));
    assert_eq!(region_steps(true), vec![RegionStep::Open, RegionStep::Truncate, RegionStep::Mmap]);
    assert_eq!(region_steps(false), vec![RegionStep::Open, RegionStep::Mmap]);
    assert_eq!(region_failed(RegionStep::Open, 2), (ShmError::Open(2), false));
    assert_eq!(region_failed(RegionStep::Truncate, 2), (ShmError::Truncate(2), true));
    assert_eq!(region_failed(RegionStep::Mmap, 12), (ShmError::Mmap(12), true));
}

#[test]
fn a_missing_sandbox_is_made_before_it_is_loaded() {
    let s = prepare_context();
    assert_eq!(s.resume(PrepareEvent::Found(true)), PrepareStage::LoadState);
    let s = s.resume(PrepareEvent::Found(false));
    assert_eq!(s, PrepareStage::Initialize);
    assert_eq!(s.resume(PrepareEvent::Failed), PrepareStage::Fail);
    let s = s.resume(PrepareEvent::Done);
    assert_eq!(s, PrepareStage::LoadState);
    let s = s.resume(PrepareEvent::Done).resume(PrepareEvent::Done);
    assert_eq!(s, PrepareStage::OpenCounters);
    assert_eq!(s.resume(PrepareEvent::Done), PrepareStage::Ready);
    let s = s.resume(PrepareEvent::Failed);
    assert_eq!(s, PrepareStage::CreateCounters);
    assert_eq!(s.resume(PrepareEvent::Done), PrepareStage::Ready);
    assert_eq!(s.resume(PrepareEvent::Failed), PrepareStage::Fail);
}
