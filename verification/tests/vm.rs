use bigiron::error::Error;
use bigiron::vm::{parse_pid, RunProbe, Spec, VMSet};

fn test_spec() -> Spec {
    Spec {
        name: "my-test-vm".to_string(),
        cpus: 2,
        memory_mb: 512,
        image: "image.qcow2".to_string(),
    }
}

fn stopped() -> RunProbe {
    RunProbe { socket_exists: false, pid: None, pid_alive: false }
}

fn live() -> RunProbe {
    RunProbe { socket_exists: true, pid: Some(4242), pid_alive: true }
}

// running is false as soon as any artifact is missing, and true only
// when the socket, the pid file, and the live process all agree
#[test]
fn test_running_needs_all_three_artifacts() {
    let set = VMSet::new("/var/lib/bigiron");
    let vm = set.define(test_spec());
    assert!(!vm.running(&stopped()));
    assert!(!vm.running(&RunProbe { socket_exists: true, pid: None, pid_alive: false }));
    assert!(!vm.running(&RunProbe { socket_exists: true, pid: Some(7), pid_alive: false }));
    assert!(!vm.running(&RunProbe { socket_exists: false, pid: Some(7), pid_alive: true }));
    assert!(vm.running(&live()));
}

#[test]
fn test_define_assigns_identity_and_directory() {
    let set = VMSet::new("/var/lib/bigiron");
    let vm = set.define(test_spec());
    let id = vm.id();
    assert_eq!(id.len(), 36);
    // hyphenated identity, as UUIDs are written
    for pos in [8, 13, 18, 23] {
        assert_eq!(id.as_bytes()[pos], b'-');
    }
    assert_eq!(vm.path(), format!("/var/lib/bigiron/{}", id));
    assert_eq!(vm.spec_path(), format!("/var/lib/bigiron/{}/spec.json", id));
    assert_eq!(vm.monitor_path(), format!("/var/lib/bigiron/{}/monitor.sock", id));
    assert_eq!(vm.pid_path(), format!("/var/lib/bigiron/{}/pid", id));
    assert_eq!(vm.name(), "my-test-vm");
}

// the whole lifecycle at the decision layer: define, start, status,
// stop, destroy, undefine
#[test]
fn test_lifecycle_decisions() {
    let set = VMSet::new("/var/lib/bigiron");
    let vm = set.define(test_spec());

    // not running: start is owed, everything else is refused
    let p = vm.start(&stopped()).unwrap();
    let args = p.build_cmd(24);
    assert!(args.contains(&"-m".to_string()));
    assert!(args.contains(&"512".to_string()));
    assert!(args.contains(&"2,sockets=1,cores=2,threads=1".to_string()));
    assert!(args.contains(&"tap,fd=24,id=net1".to_string()));
    assert!(args.contains(&vm.id()));
    assert!(matches!(vm.status(&stopped()), Err(Error::NotStarted)));
    assert!(matches!(vm.stop(&stopped()), Err(Error::NotStarted)));
    assert!(matches!(vm.cont(&stopped()), Err(Error::NotStarted)));
    assert!(matches!(vm.destroy(&stopped()), Err(Error::NotStarted)));

    // running: start is refused, the others name their commands
    assert!(matches!(vm.start(&live()), Err(Error::AlreadyStarted)));
    let req = vm.status(&live()).unwrap();
    assert_eq!(req.command, "query-status");
    assert_eq!(req.socket, vm.monitor_path());
    assert_eq!(vm.stop(&live()).unwrap().command, "stop");
    assert_eq!(vm.cont(&live()).unwrap().command, "cont");
    assert_eq!(vm.destroy(&live()).unwrap().command, "quit");

    // undefine quits a running VM first and needs nothing for a stopped one
    let vm2 = set.define(test_spec());
    assert_eq!(vm2.undefine(&live()).unwrap().command, "quit");
    let vm3 = set.define(test_spec());
    assert!(vm3.undefine(&stopped()).is_none());
}

#[test]
fn test_start_plans_exact_process() {
    let set = VMSet::new("/tmp/vms");
    let vm = set.define(test_spec());
    let p = vm.start(&stopped()).unwrap();
    assert_eq!(p.monitor_sock_path(), vm.monitor_path());
    assert_eq!(p.pid_path(), vm.path() + "/pid");
    assert_eq!(p.log_path(), vm.path() + "/qemu.log");
}

#[test]
fn test_parse_pid() {
    assert_eq!(parse_pid("4242"), Some(4242));
    assert_eq!(parse_pid("007"), Some(7));
    assert_eq!(parse_pid("4294967295"), Some(u32::MAX));
    assert_eq!(parse_pid("4294967296"), None);
    assert_eq!(parse_pid(""), None);
    assert_eq!(parse_pid("12a"), None);
    assert_eq!(parse_pid("-5"), None);
    assert_eq!(parse_pid("99999999999999999999999"), None);
}
