use cas::cli::clean::{cmd_clean, CleanStep, FileContent, OldSandbox};
use cas::cli::init::cmd_init;
use cas::cli::purge::{cmd_purge, PurgeRefusal};
use cas::cli::relay::{
    wait_setup_exit, Relay, RelayDo, RelayError, RelayEvent, WriteResult, WriteRun, WriteStep,
};
use cas::cli::run::RunRefusal;
use cas::cli::sandbox::{
    closes_terminal, exec_command, fuse_is_mounted, wants_pty, without_echo, ExecStep, FuseEvent,
    FuseNext, FuseWait, FuseWaitError, SetupStage, ECHO, ECHOE, ECHOK, ECHOKE, ECHONL, ECHO_BITS,
};
use cas::isolate::stage1::{create_user_ns, id_file_path, IdFile, Stage1Refusal};
use cas::isolate::stage2::{
    create_mount_ns, drop_capabilities, mount_flags, mount_type, prepare_chroot, CapabilitySet,
    MountKind, MountStep,
};
use cas::path::FsPath;
use cas::syncing::start::ChildStatus;

fn path(s: &str) -> FsPath {
    FsPath::parse(s.as_bytes())
}

fn shown(p: &FsPath) -> String {
    String::from_utf8(p.to_bytes()).expect("utf-8 path")
}

fn clean_line(step: &CleanStep) -> String {
    match step {
        CleanStep::MakeDirs(p) => format!("mkdir {}", shown(p)),
        CleanStep::InitStore(plan) => {
            format!("init {} {}", plan.meta.shm_name, plan.meta.next_id)
        }
        CleanStep::WriteFile { path, content } => {
            let what = match content {
                FileContent::Nothing => "nothing",
                FileContent::DefaultConfig => "config",
                FileContent::IgnoreList => "ignore",
            };
            format!("write {} {}", what, shown(path))
        }
        CleanStep::RemoveTree(p) => format!("remove tree {}", shown(p)),
        CleanStep::UnlinkShm(name) => format!("unlink {}", name),
        CleanStep::RemoveFile(p) => format!("remove {}", shown(p)),
    }
}

#[test]
fn a_new_sandbox_gets_all_its_files() {
    let steps = cmd_init(&path("/p"), None, "/cas-x");
    let lines: Vec<String> = steps.iter().map(clean_line).collect();
    assert_eq!(
        lines,
        vec![
            "mkdir /p/.sandbox/data/objects",
            "init /cas-x 1",
            "write nothing /p/.sandbox/data/access.log",
            "write config /p/.sandbox/config.toml",
            "write ignore /p/.sandbox/.gitignore",
        ]
    );
}

#[test]
fn cleaning_leaves_the_configuration() {
    let old = OldSandbox {
        has_data: true,
        shm_name: Some("/cas-old".to_string()),
        shm_opens: true,
        has_socket: true,
    };
    let steps = cmd_clean(&path("/p"), Some(old), "/cas-new");
    let lines: Vec<String> = steps.iter().map(clean_line).collect();
    assert_eq!(
        lines,
        vec![
            "remove tree /p/.sandbox/data",
            "unlink /cas-old",
            "remove /p/.sandbox/daemon.sock",
            "mkdir /p/.sandbox/data/objects",
            "init /cas-new 1",
            "write nothing /p/.sandbox/data/access.log",
        ]
    );
    let bare = OldSandbox {
        has_data: false,
        shm_name: Some(String::new()),
        shm_opens: true,
        has_socket: false,
    };
    assert_eq!(cmd_clean(&path("/p"), Some(bare), "/cas-new").len(), 3);
}

#[test]
fn only_a_sandbox_that_is_there_is_purged() {
    assert_eq!(shown(&cmd_purge(&path("/p"), true).expect("there")), "/p/.sandbox");
    assert_eq!(cmd_purge(&path("/p"), false).err(), Some(PurgeRefusal::NotInitialized));
}

#[test]
fn the_mount_shows_by_its_device() {
    assert!(!fuse_is_mounted(Some(1), Some(1)));
    assert!(fuse_is_mounted(Some(1), Some(2)));
    assert!(!fuse_is_mounted(Some(1), None));
    assert!(fuse_is_mounted(None, Some(2)));
    assert!(!fuse_is_mounted(None, Some(u64::MAX)));
    let probe = |parent, mount| FuseWait::Probe.resume(FuseEvent::Devices { parent, mount });
    assert_eq!(probe(Some(1), Some(2)), FuseNext::Mounted);
    assert_eq!(probe(Some(1), Some(1)), FuseNext::Do(FuseWait::Child));
    let child = |status| FuseWait::Child.resume(FuseEvent::Child(status));
    assert_eq!(child(ChildStatus::StillAlive), FuseNext::Do(FuseWait::Clock));
    assert_eq!(child(ChildStatus::Exited(3)), FuseNext::Failed(FuseWaitError::Exited(3)));
    assert_eq!(child(ChildStatus::Signaled(9)), FuseNext::Failed(FuseWaitError::Killed(9)));
    assert_eq!(child(ChildStatus::Changed), FuseNext::Failed(FuseWaitError::Terminated));
    assert_eq!(child(ChildStatus::Failed(4)), FuseNext::Failed(FuseWaitError::WaitFailed(4)));
    let clock = |past_deadline| FuseWait::Clock.resume(FuseEvent::Clock { past_deadline });
    assert_eq!(clock(true), FuseNext::Failed(FuseWaitError::Timeout));
    assert_eq!(clock(false), FuseNext::Do(FuseWait::Sleep));
    assert_eq!(FuseWait::Sleep.resume(FuseEvent::Slept), FuseNext::Do(FuseWait::Probe));
}

#[test]
fn a_command_runs_only_after_all_of_the_set_up() {
    let way = [
        SetupStage::UserNamespace,
        SetupStage::MountNamespace,
        SetupStage::StartFuse,
        SetupStage::WaitFuse,
        SetupStage::PrepareRoot,
        SetupStage::FilterCalls,
        SetupStage::DropCapabilities,
        SetupStage::Execute,
    ];
    for i in 0..6 {
        assert_eq!(way[i].resume(true), way[i + 1]);
        assert_eq!(way[i].resume(false), SetupStage::Exit(1));
    }
    assert_eq!(SetupStage::Execute.resume(true), SetupStage::Exit(1));
}

#[test]
fn echo_is_switched_off_and_nothing_else() {
    assert_eq!(without_echo(u32::MAX), !ECHO_BITS);
    assert_eq!(without_echo(0o5), 0o5);
    assert_eq!(
        (ECHO, ECHOE, ECHOK, ECHONL, ECHOKE),
        (libc::ECHO, libc::ECHOE, libc::ECHOK, libc::ECHONL, libc::ECHOKE)
    );
    assert_eq!(ECHO_BITS, ECHO | ECHOE | ECHOK | ECHONL | ECHOKE);
}

#[test]
fn the_way_to_a_command() {
    let argv = vec!["ls".to_string(), "-l".to_string()];
    assert_eq!(exec_command(&argv, false), Ok(vec![ExecStep::Execute]));
    let steps = exec_command(&argv, true).expect("plan");
    assert_eq!(steps.len(), 10);
    assert_eq!(steps[0], ExecStep::NewSession);
    assert_eq!(steps[5], ExecStep::Redirect(0));
    assert_eq!(steps[9], ExecStep::Execute);
    let closing: Vec<bool> = steps.iter().map(|s| closes_terminal(*s)).collect();
    assert_eq!(
        closing,
        vec![false, false, true, true, true, true, true, true, false, false]
    );
    let bad = vec!["ls".to_string(), "a\0b".to_string()];
    assert_eq!(exec_command(&bad, false), Ok(vec![ExecStep::RefuseArgument]));
    assert_eq!(exec_command(&Vec::new(), true), Err(RunRefusal::NoCommand));
    assert!(wants_pty(true, true));
    assert!(!wants_pty(true, false));
}

#[test]
fn exit_codes_of_processes() {
    assert_eq!(wait_setup_exit(ChildStatus::Exited(7)), 7);
    assert_eq!(wait_setup_exit(ChildStatus::Signaled(9)), 1);
    assert_eq!(wait_setup_exit(ChildStatus::Failed(10)), 1);
    assert_eq!(wait_setup_exit(ChildStatus::Changed), 0);
}

#[test]
fn the_relay_passes_bytes_both_ways() {
    let (r, d) = Relay::start();
    assert_eq!(d, RelayDo::Poll { stdin: true });
    let (r, d) = r.resume(RelayEvent::News { master: true, stdin: true });
    assert_eq!(d, RelayDo::WaitChild);
    let (r, d) = r.resume(RelayEvent::Child(ChildStatus::StillAlive));
    assert_eq!(d, RelayDo::ReadMaster);
    let (r, d) = r.resume(RelayEvent::Read(5));
    assert_eq!(d, RelayDo::WriteStdout(5));
    let (r, d) = r.resume(RelayEvent::Written);
    assert_eq!(d, RelayDo::ReadStdin);
    let (r, d) = r.resume(RelayEvent::Read(3));
    assert_eq!(d, RelayDo::WriteMaster(3));
    let (_, d) = r.resume(RelayEvent::Written);
    assert_eq!(d, RelayDo::Poll { stdin: true });
}

#[test]
fn the_relay_ends_with_the_command() {
    let (r, _) = Relay::start();
    let (r, _) = r.resume(RelayEvent::News { master: false, stdin: false });
    let (_, d) = r.resume(RelayEvent::Child(ChildStatus::Exited(4)));
    assert_eq!(d, RelayDo::Done(4));

    let (r, _) = Relay::start();
    let (r, _) = r.resume(RelayEvent::News { master: true, stdin: false });
    let (r, _) = r.resume(RelayEvent::Child(ChildStatus::StillAlive));
    let (r, d) = r.resume(RelayEvent::Read(0));
    assert_eq!(d, RelayDo::WaitLast);
    let (_, d) = r.resume(RelayEvent::Child(ChildStatus::Signaled(2)));
    assert_eq!(d, RelayDo::Done(1));
}

#[test]
fn a_closed_terminal_is_not_read_again() {
    let (r, _) = Relay::start();
    let (r, _) = r.resume(RelayEvent::News { master: false, stdin: true });
    let (r, d) = r.resume(RelayEvent::Child(ChildStatus::StillAlive));
    assert_eq!(d, RelayDo::ReadStdin);
    let (r, d) = r.resume(RelayEvent::Read(0));
    assert_eq!(d, RelayDo::Poll { stdin: false });
    let (_, d) = r.resume(RelayEvent::Failed(4));
    assert_eq!(d, RelayDo::GiveUp(RelayError::Poll(4)));
}

#[test]
fn writing_goes_on_until_all_is_written() {
    let mut w = WriteRun::new(10);
    assert_eq!(w.next_step(), WriteStep::Write(0));
    assert_eq!(w.wrote(WriteResult::Wrote(4)), WriteStep::Write(4));
    assert_eq!(w.wrote(WriteResult::Interrupted), WriteStep::Write(4));
    assert_eq!(w.wrote(WriteResult::Failed(5)), WriteStep::GiveUp(5));
    assert_eq!(w.wrote(WriteResult::Wrote(6)), WriteStep::Done);
    assert_eq!(WriteRun::new(0).next_step(), WriteStep::Done);
}

#[test]
fn the_namespace_maps_one_user() {
    assert_eq!(create_user_ns(0, 0).err(), Some(Stage1Refusal::GetUid));
    assert_eq!(create_user_ns(1, 0).err(), Some(Stage1Refusal::GetGid));
    let ns = create_user_ns(1000, 100).expect("plan");
    let writes: Vec<(String, String)> = ns
        .writes
        .iter()
        .map(|(f, t)| (id_file_path(*f).to_string(), String::from_utf8(t.clone()).unwrap()))
        .collect();
    assert_eq!(
        writes,
        vec![
            ("/proc/self/setgroups".to_string(), "deny\n".to_string()),
            ("/proc/self/uid_map".to_string(), "1000 1000 1\n".to_string()),
            ("/proc/self/gid_map".to_string(), "100 100 1\n".to_string()),
        ]
    );
    assert_eq!(ns.writes[1].0, IdFile::UidMap);
}

fn mount_line(step: &MountStep) -> String {
    match step {
        MountStep::MakeDirs(p) => format!("mkdir {}", shown(p)),
        MountStep::MakeFile(p) => format!("touch {}", shown(p)),
        MountStep::Mount { source, target, kind } => {
            let from = match source {
                Some(s) => String::from_utf8(s.clone()).unwrap(),
                None => "none".to_string(),
            };
            format!("{:?} {} {}", kind, from, shown(target))
        }
        MountStep::Chroot(p) => format!("chroot {}", shown(p)),
        MountStep::Chdir(p) => format!("chdir {}", shown(p)),
    }
}

#[test]
fn the_root_of_a_command() {
    let steps =
        prepare_chroot(&path("/r"), &path("/m"), &path("/tmp/w"), None, Some(&path("/dev/pts/3")));
    let lines: Vec<String> = steps.iter().map(mount_line).collect();
    assert_eq!(
        lines,
        vec![
            "mkdir /r/proc",
            "mkdir /r/dev",
            "touch /r/dev/null",
            "touch /r/dev/zero",
            "touch /r/dev/random",
            "touch /r/dev/urandom",
            "BindTree /m /r",
            "BindTree /proc /r/proc",
            "Bind /dev/null /r/dev/null",
            "Bind /dev/zero /r/dev/zero",
            "Bind /dev/urandom /r/dev/urandom",
            "Bind /dev/random /r/dev/random",
            "mkdir /r/dev/pts",
            "Terminals devpts /r/dev/pts",
            "Bind /r/dev/pts/ptmx /r/dev/ptmx",
            "Bind /dev/pts/3 /r/dev/tty",
            "chroot /r",
            "chdir /tmp/w",
            "Memory tmpfs /tmp",
        ]
    );
    let with_tty =
        prepare_chroot(&path("/r"), &path("/m"), &path("/"), Some(&path("/dev/tty1")), None);
    assert_eq!(mount_line(&with_tty[12]), "Bind /dev/tty1 /r/dev/tty");
    assert_eq!(mount_line(&create_mount_ns()), "KeepPrivate none /");
}

#[test]
fn mount_flags_are_those_of_the_system() {
    assert_eq!(mount_flags(MountKind::Bind), libc::MS_BIND);
    assert_eq!(mount_flags(MountKind::BindTree), libc::MS_BIND | libc::MS_REC);
    assert_eq!(mount_flags(MountKind::Terminals), libc::MS_NOSUID | libc::MS_NOEXEC);
    assert_eq!(mount_flags(MountKind::Memory), libc::MS_NOSUID | libc::MS_NODEV);
    assert_eq!(mount_flags(MountKind::KeepPrivate), libc::MS_PRIVATE | libc::MS_REC);
    assert_eq!(
        mount_type(MountKind::Terminals),
        (Some("devpts"), Some("newinstance,mode=666,ptmxmode=666"))
    );
    assert_eq!(mount_type(MountKind::Memory), (Some("tmpfs"), None));
    assert_eq!(mount_type(MountKind::Bind), (None, None));
}

#[test]
fn all_capabilities_are_dropped() {
    let drops = drop_capabilities();
    assert_eq!(drops.len(), 96);
    assert_eq!(drops[0], (CapabilitySet::Effective, 0));
    assert_eq!(drops[1], (CapabilitySet::Permitted, 0));
    assert_eq!(drops[95], (CapabilitySet::Inheritable, 31));
    assert!(drops.contains(&(CapabilitySet::Effective, caps::Capability::CAP_SYS_ADMIN.index())));
    assert_eq!(caps::Capability::CAP_CHOWN.index(), 0);
    assert_eq!(caps::Capability::CAP_SETFCAP.index(), 31);
}
