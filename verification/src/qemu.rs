//! The process supervisor's computing half: what a hypervisor invocation
//! looks like for a given VM, and where its runtime artifacts live. The
//! caller owns the other half -- opening the tap device, forking, wiring
//! file descriptors and spawning -- and feeds the descriptor number back
//! in here to get the exact argument list.

use vstd::prelude::*;

use crate::text::{dec_chars, dec_chars_signed, push_dec_i32, push_dec_u64};

pub mod qmp;

verus! {

/// A resolved boot disk image.
#[derive(Debug)]
pub struct Image {
    pub path: String,
}

/// The mathematical content of a planned hypervisor process.
pub struct ProcessV {
    pub base_dir: Seq<char>,
    pub name: Seq<char>,
    pub cpus: u32,
    pub memory_mb: u64,
    pub uuid: Seq<char>,
    pub image: Seq<char>,
}

/// A planned hypervisor process for one VM.
#[derive(Debug)]
pub struct Process {
    base_dir: String,
    name: String,
    cpus: u32,
    memory_mb: u64,
    uuid: String,
    image: Image,
}

impl View for Process {
    type V = ProcessV;

    closed spec fn view(&self) -> ProcessV {
        ProcessV {
            base_dir: self.base_dir@,
            name: self.name@,
            cpus: self.cpus,
            memory_mb: self.memory_mb,
            uuid: self.uuid@,
            image: self.image.path@,
        }
    }
}

/// The control socket path inside a VM's runtime directory.
pub open spec fn monitor_sock_chars(base: Seq<char>) -> Seq<char> {
    base + "/monitor.sock"@
}

/// The pid file path inside a VM's runtime directory.
pub open spec fn pid_file_chars(base: Seq<char>) -> Seq<char> {
    base + "/pid"@
}

/// The log file path inside a VM's runtime directory.
pub open spec fn log_file_chars(base: Seq<char>) -> Seq<char> {
    base + "/qemu.log"@
}

/// The full hypervisor argument list for a process plan and an already
/// duplicated tap device descriptor.
pub open spec fn build_cmd_spec(p: ProcessV, net_fd: int) -> Seq<Seq<char>> {
    seq![
        "-machine"@,
        "pc-i440fx-3.1,accel=kvm,usb=off,dump-guest-core=off"@,
        "-realtime"@,
        "mlock=off"@,
        "-display"@,
        "none"@,
        "-no-user-config"@,
        "-nodefaults"@,
        "-rtc"@,
        "base=utc"@,
        "-no-shutdown"@,
        "-global"@,
        "PIIX4_PM.disable_s3=1"@,
        "-global"@,
        "PIIX4_PM.disable_s4=1"@,
        "-boot"@,
        "strict=on"@,
        "-device"@,
        "piix3-usb-uhci,id=usb,bus=pci.0,addr=0x1.0x2"@,
        "-device"@,
        "virtio-blk-pci,scsi=off,bus=pci.0,addr=0x2,drive=drive-virtio-disk0,id=virtio-disk0,bootindex=1,write-cache=on"@,
        "-chardev"@,
        "pty,id=charserial0"@,
        "-device"@,
        "isa-serial,chardev=charserial0,id=serial0"@,
        "-device"@,
        "virtio-balloon-pci,id=balloon0,bus=pci.0,addr=0x3"@,
        "-sandbox"@,
        "on,obsolete=deny,elevateprivileges=deny,spawn=deny,resourcecontrol=deny"@,
        "-msg"@,
        "timestamp=on"@,
        "-name"@,
        "guest="@ + p.name + ",debug-threads=on"@,
        "-chardev"@,
        "socket,id=charmonitor,path="@ + monitor_sock_chars(p.base_dir) + ",server,nowait"@,
        "-mon"@,
        "chardev=charmonitor,id=monitor,mode=control"@,
        "-m"@,
        dec_chars(p.memory_mb as nat),
        "-smp"@,
        dec_chars(p.cpus as nat) + ",sockets=1,cores="@ + dec_chars(p.cpus as nat) + ",threads=1"@,
        "-uuid"@,
        p.uuid,
        "-drive"@,
        "file="@ + p.image + ",format=qcow2,if=none,id=drive-virtio-disk0,cache=writeback"@,
        "-device"@,
        "virtio-net-pci,netdev=net1,mac=52:54:00:b8:9c:58"@,
        "-netdev"@,
        "tap,fd="@ + dec_chars_signed(net_fd) + ",id=net1"@,
        "-device"@,
        "virtio-net-pci,netdev=net0"@,
        "-netdev"@,
        "bridge,br=br0,id=net0"@,
    ]
}

/// The hypervisor binary the supervisor runs.
pub fn emulator_path() -> (r: &'static str)
    ensures
        r@ == "/usr/bin/kvm"@,
{
    "/usr/bin/kvm"
}

impl Process {
    /// Plan a hypervisor process: runtime directory, guest name, sizing,
    /// identity and boot image.
    pub fn new(dir: &str, name: &str, cpus: u32, memory_mb: u64, uuid: &str, image: Image) -> (r:
        Process)
        ensures
            r@ == (ProcessV {
                base_dir: dir@,
                name: name@,
                cpus,
                memory_mb,
                uuid: uuid@,
                image: image.path@,
            }),
    {
        Process {
            base_dir: dir.to_owned(),
            name: name.to_owned(),
            cpus,
            memory_mb,
            uuid: uuid.to_owned(),
            image,
        }
    }

    /// The control socket path of this process.
    pub fn monitor_sock_path(&self) -> (r: String)
        ensures
            r@ == monitor_sock_chars(self@.base_dir),
    {
        let mut s = self.base_dir.clone();
        s.append("/monitor.sock");
        s
    }

    /// The pid file path of this process.
    pub fn pid_path(&self) -> (r: String)
        ensures
            r@ == pid_file_chars(self@.base_dir),
    {
        let mut s = self.base_dir.clone();
        s.append("/pid");
        s
    }

    /// The log file path of this process.
    pub fn log_path(&self) -> (r: String)
        ensures
            r@ == log_file_chars(self@.base_dir),
    {
        let mut s = self.base_dir.clone();
        s.append("/qemu.log");
        s
    }

    /// The exact hypervisor argument list, with the given descriptor as
    /// the tap network backend.
    pub fn build_cmd(&self, net_fd: i32) -> (r: Vec<String>)
        ensures
            strings_view(r@) == build_cmd_spec(self@, net_fd as int),
    {
        let mut a: Vec<String> = Vec::new();
        a.push("-machine".to_owned());
        a.push("pc-i440fx-3.1,accel=kvm,usb=off,dump-guest-core=off".to_owned());
        a.push("-realtime".to_owned());
        a.push("mlock=off".to_owned());
        a.push("-display".to_owned());
        a.push("none".to_owned());
        a.push("-no-user-config".to_owned());
        a.push("-nodefaults".to_owned());
        a.push("-rtc".to_owned());
        a.push("base=utc".to_owned());
        a.push("-no-shutdown".to_owned());
        a.push("-global".to_owned());
        a.push("PIIX4_PM.disable_s3=1".to_owned());
        a.push("-global".to_owned());
        a.push("PIIX4_PM.disable_s4=1".to_owned());
        a.push("-boot".to_owned());
        a.push("strict=on".to_owned());
        a.push("-device".to_owned());
        a.push("piix3-usb-uhci,id=usb,bus=pci.0,addr=0x1.0x2".to_owned());
        a.push("-device".to_owned());
        a.push(
            "virtio-blk-pci,scsi=off,bus=pci.0,addr=0x2,drive=drive-virtio-disk0,id=virtio-disk0,bootindex=1,write-cache=on".to_owned(),
        );
        a.push("-chardev".to_owned());
        a.push("pty,id=charserial0".to_owned());
        a.push("-device".to_owned());
        a.push("isa-serial,chardev=charserial0,id=serial0".to_owned());
        a.push("-device".to_owned());
        a.push("virtio-balloon-pci,id=balloon0,bus=pci.0,addr=0x3".to_owned());
        a.push("-sandbox".to_owned());
        a.push("on,obsolete=deny,elevateprivileges=deny,spawn=deny,resourcecontrol=deny".to_owned());
        a.push("-msg".to_owned());
        a.push("timestamp=on".to_owned());
        a.push("-name".to_owned());
        let mut name_arg = "guest=".to_owned();
        name_arg.append(self.name.as_str());
        name_arg.append(",debug-threads=on");
        a.push(name_arg);
        a.push("-chardev".to_owned());
        let mut mon_arg = "socket,id=charmonitor,path=".to_owned();
        let sock = self.monitor_sock_path();
        mon_arg.append(sock.as_str());
        mon_arg.append(",server,nowait");
        a.push(mon_arg);
        a.push("-mon".to_owned());
        a.push("chardev=charmonitor,id=monitor,mode=control".to_owned());
        a.push("-m".to_owned());
        let mut mem_arg = String::new();
        push_dec_u64(&mut mem_arg, self.memory_mb);
        a.push(mem_arg);
        a.push("-smp".to_owned());
        let mut smp_arg = String::new();
        push_dec_u64(&mut smp_arg, self.cpus as u64);
        smp_arg.append(",sockets=1,cores=");
        push_dec_u64(&mut smp_arg, self.cpus as u64);
        smp_arg.append(",threads=1");
        a.push(smp_arg);
        a.push("-uuid".to_owned());
        a.push(self.uuid.clone());
        a.push("-drive".to_owned());
        let mut drive_arg = "file=".to_owned();
        drive_arg.append(self.image.path.as_str());
        drive_arg.append(",format=qcow2,if=none,id=drive-virtio-disk0,cache=writeback");
        a.push(drive_arg);
        a.push("-device".to_owned());
        a.push("virtio-net-pci,netdev=net1,mac=52:54:00:b8:9c:58".to_owned());
        a.push("-netdev".to_owned());
        let mut tap_arg = "tap,fd=".to_owned();
        push_dec_i32(&mut tap_arg, net_fd);
        tap_arg.append(",id=net1");
        a.push(tap_arg);
        a.push("-device".to_owned());
        a.push("virtio-net-pci,netdev=net0".to_owned());
        a.push("-netdev".to_owned());
        a.push("bridge,br=br0,id=net0".to_owned());
        proof {
            assert(strings_view(a@) =~~= build_cmd_spec(self@, net_fd as int));
        }
        a
    }
}

/// The character sequences a string vector stands for.
pub open spec fn strings_view(s: Seq<String>) -> Seq<Seq<char>> {
    Seq::new(s.len(), |i: int| s[i]@)
}

} // verus!
