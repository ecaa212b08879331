use bigiron::dnsmasq::Dnsmasq;
use bigiron::error::Error;
use bigiron::imagerepo::ImageRepo;
use bigiron::libvirt::domain_xml;
use bigiron::lockfile::LockFile;
use bigiron::models::{Image, Machine, Spec};

#[test]
fn test_lockfile_paths() {
    let lf = LockFile::new("/var/lib/bigiron/netstate.lock");
    assert_eq!(lf.path(), "/var/lib/bigiron/netstate.lock");
    assert_eq!(lf.pid_file_path(), "/var/lib/bigiron/netstate.lock/pid");
}

#[test]
fn test_dnsmasq_paths() {
    let d = Dnsmasq::new();
    assert_eq!(d.hostsdir(), "/var/lib/bigiron/dnsmasq/hosts");
    assert_eq!(d.leasefile(), "/var/lib/bigiron/dnsmasq/leases");
    assert_eq!(d.pidfile(), "/var/lib/bigiron/dnsmasq/dnsmasq.pid");
    assert_eq!(d.conffile(), "/var/lib/bigiron/dnsmasq/conf");
    assert_eq!(d.host_file_path("vm1"), "/var/lib/bigiron/dnsmasq/hosts/vm1");
}

#[test]
fn test_dnsmasq_start_args() {
    let d = Dnsmasq::new();
    let args = d.start_args();
    assert_eq!(args.len(), 14);
    assert_eq!(args[0], "--strict-order");
    assert_eq!(args[2], "--pid-file=/var/lib/bigiron/dnsmasq/dnsmasq.pid");
    assert_eq!(args[3], "--dhcp-hostsdir=/var/lib/bigiron/dnsmasq/hosts");
    assert_eq!(args[4], "--conf-file=/var/lib/bigiron/dnsmasq/conf");
    assert_eq!(args[12], "--dhcp-script=/usr/local/sbin/bigiron-dhcpbridge");
    assert_eq!(args[13], "--leasefile-ro");
}

#[test]
fn test_dnsmasq_host_record() {
    let d = Dnsmasq::new();
    let rec = d.host_record("00:16:3e:aa:bb:cc", 0xAC140009, "vm1");
    assert_eq!(rec, "00:16:3e:aa:bb:cc,172.20.0.9,vm1,3600");
}

#[test]
fn test_imagerepo_paths() {
    let repo = ImageRepo::new();
    assert_eq!(repo.root(), "/var/lib/bigiron/images");
    assert_eq!(repo.lockfile().path(), "/var/lib/bigiron/images/.lock");
    assert_eq!(repo.image_path("abcd"), "/var/lib/bigiron/images/abcd");
    assert_eq!(repo.image_meta_path("abcd"), "/var/lib/bigiron/images/abcd.json");
    let img = repo.image_for("abcd", "file:///tmp/base.qcow2");
    assert_eq!(img.id, "abcd");
    assert_eq!(img.path, "/var/lib/bigiron/images/abcd");
    assert_eq!(img.origin, "file:///tmp/base.qcow2");
    assert_eq!(img.format, "qcow2");
    assert!(ImageRepo::supported_scheme("file"));
    assert!(!ImageRepo::supported_scheme("http"));
    assert!(!ImageRepo::supported_scheme("cos"));
}

fn machine(memory: &str) -> Machine {
    Machine {
        name: "my-test-vm".to_string(),
        status: None,
        spec: Spec {
            cpu: 4,
            memory: memory.to_string(),
            image: Image { url: "file:///tmp/base.qcow2".to_string(), resize: None },
            storage: None,
            network: None,
        },
    }
}

#[test]
fn test_domain_xml_exact() {
    let m = machine("1G");
    let xml = domain_xml(&m, "/data/image.qcow2", "br0", "00:16:3e:01:02:03").unwrap();
    let expected = format!(
        r#"
<domain type='kvm'>
  <name>{name}</name>
  <memory unit="bytes">{memory_bytes}</memory>
  <currentMemory unit="bytes">{memory_bytes}</currentMemory>
  <vcpu>{cpus}</vcpu>
  <os>
    <type arch='x86_64' machine='pc'>hvm</type>
    <boot dev='hd'/>
  </os>
  <features>
    <acpi/>
    <apic/>
  </features>
  <clock offset='utc'/>
  <pm>
    <suspend-to-mem enabled='no'/>
    <suspend-to-disk enabled='no'/>
  </pm>
  <devices>
    <emulator>/usr/bin/kvm</emulator>
    <disk type='file' device='disk'>
      <driver name='qemu' type='qcow2' cache='writeback'/>
      <source file='{image_file}'/>
      <target dev='vda' bus='virtio'/>
    </disk>
    <serial type='pty'>
      <source path='/dev/pts/0'/>
      <target type='isa-serial' port='0'/>
    </serial>
    <input type='keyboard' bus='ps2'/>
    <input type='mouse' bus='ps2'/>
    <interface type="bridge">
      <source bridge="{management_bridge}"/>
      <mac address="{macaddr}"/>
    </interface>
    <memballoon model='virtio'/>
  </devices>
</domain>
    "#,
        name = "my-test-vm",
        memory_bytes = 1_000_000_000u64,
        cpus = 4,
        image_file = "/data/image.qcow2",
        management_bridge = "br0",
        macaddr = "00:16:3e:01:02:03"
    );
    assert_eq!(xml, expected);
}

#[test]
fn test_domain_xml_rejects_bad_memory() {
    let m = machine("lots");
    assert_eq!(
        domain_xml(&m, "/data/image.qcow2", "br0", "00:16:3e:01:02:03"),
        Err(Error::BadSize)
    );
}

#[test]
fn test_error_descriptions() {
    assert_eq!(Error::NotStarted.desc(), "VM not started");
    assert_eq!(Error::AlreadyStarted.desc(), "VM already started");
    assert_eq!(Error::Capacity.desc(), "No more free addresses on network");
    assert_eq!(Error::Monitor("boom".to_string()).desc(), "boom");
    assert_eq!(Error::NoReply.desc(), "no response found");
    assert_eq!(Error::Malformed.desc(), "malformed control-protocol message");
    assert_eq!(Error::BadSize.desc(), "unparseable size string");
}
