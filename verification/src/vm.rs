//! The persisted unit of control: a VM's identity, its specification, and
//! the lifecycle decisions. Whether a VM runs is never cached: it is
//! recomputed from what the filesystem shows -- the control socket, the
//! pid file, and the liveness of that pid -- which the caller probes and
//! hands in as plain values. Each lifecycle operation decides, from the
//! probe, whether it may proceed and which monitor command to issue; the
//! caller performs the socket work.

use vstd::prelude::*;

use crate::error::Error;
use crate::qemu::{monitor_sock_chars, pid_file_chars, Image, Process, ProcessV};

verus! {

/// The mathematical content of a VM specification.
pub struct SpecV {
    pub name: Seq<char>,
    pub cpus: u32,
    pub memory_mb: u64,
    pub image: Seq<char>,
}

/// What a VM should be: name, sizing, and boot image path.
#[derive(Debug)]
pub struct Spec {
    pub name: String,
    pub cpus: u32,
    pub memory_mb: u64,
    pub image: String,
}

impl View for Spec {
    type V = SpecV;

    open spec fn view(&self) -> SpecV {
        SpecV { name: self.name@, cpus: self.cpus, memory_mb: self.memory_mb, image: self.image@ }
    }
}

/// The mathematical content of a VM entity.
pub struct VMV {
    pub id: Seq<char>,
    pub spec: SpecV,
    pub path: Seq<char>,
}

/// One defined VM: identity, specification, runtime directory.
#[derive(Debug)]
pub struct VM {
    id: String,
    spec: Spec,
    path: String,
}

impl View for VM {
    type V = VMV;

    closed spec fn view(&self) -> VMV {
        VMV { id: self.id@, spec: self.spec@, path: self.path@ }
    }
}

/// What the filesystem showed about a VM at one instant: whether the
/// control socket exists, the pid the pid file holds, and whether the
/// operating system knows a live process under that pid.
#[derive(Debug, Clone, Copy)]
pub struct RunProbe {
    pub socket_exists: bool,
    pub pid: Option<u32>,
    pub pid_alive: bool,
}

/// The pid a pid file's text names: decimal digits whose value fits a
/// process id; anything else means the file is unusable.
pub fn parse_pid(s: &str) -> (r: Option<u32>)
    ensures
        match r {
            Some(v) => s@.len() > 0 && crate::text::all_dec_digits(s@) && crate::text::digits_val(
                s@,
            ) == v as nat,
            None => s@.len() == 0 || !crate::text::all_dec_digits(s@) || crate::text::digits_val(
                s@,
            ) > u32::MAX,
        },
{
    match crate::text::parse_dec_u64(s) {
        Some(v) => if v <= 0xFFFFFFFF {
            Some(v as u32)
        } else {
            None
        },
        None => {
            proof {
                if s@.len() > 0 && crate::text::all_dec_digits(s@) {
                    assert(crate::text::digits_val(s@) > u64::MAX);
                }
            }
            None
        },
    }
}

/// A VM counts as running only when all three artifacts agree: the
/// control socket exists, a pid file exists, and its process is alive.
pub open spec fn probe_running(p: RunProbe) -> bool {
    &&& p.socket_exists
    &&& p.pid is Some
    &&& p.pid_alive
}

/// A monitor exchange the caller should perform: connect to the socket
/// and issue the named command.
#[derive(Debug)]
pub struct MonitorRequest {
    pub socket: String,
    pub command: String,
}

impl VM {
    /// Assemble a VM from its persisted parts.
    pub fn from_parts(id: String, spec: Spec, path: String) -> (r: VM)
        ensures
            r@ == (VMV { id: id@, spec: spec@, path: path@ }),
    {
        VM { id, spec, path }
    }

    /// The VM's opaque identity.
    pub fn id(&self) -> (r: String)
        ensures
            r@ == self@.id,
    {
        self.id.clone()
    }

    /// The VM's guest name.
    pub fn name(&self) -> (r: String)
        ensures
            r@ == self@.spec.name,
    {
        self.spec.name.clone()
    }

    /// The VM's specification.
    pub fn spec(&self) -> (r: &Spec)
        ensures
            r@ == self@.spec,
    {
        &self.spec
    }

    /// The VM's runtime directory.
    pub fn path(&self) -> (r: String)
        ensures
            r@ == self@.path,
    {
        self.path.clone()
    }

    /// Where the VM's specification document lives.
    pub fn spec_path(&self) -> (r: String)
        ensures
            r@ == self@.path + "/spec.json"@,
    {
        let mut s = self.path.clone();
        s.append("/spec.json");
        s
    }

    /// Where the VM's control socket lives.
    pub fn monitor_path(&self) -> (r: String)
        ensures
            r@ == monitor_sock_chars(self@.path),
    {
        let mut s = self.path.clone();
        s.append("/monitor.sock");
        s
    }

    /// Where the VM's pid file lives.
    pub fn pid_path(&self) -> (r: String)
        ensures
            r@ == pid_file_chars(self@.path),
    {
        let mut s = self.path.clone();
        s.append("/pid");
        s
    }

    /// Whether the probe shows a running VM: false as soon as the socket,
    /// the pid file, or the live process is missing; true only when all
    /// three are there.
    pub fn running(&self, probe: &RunProbe) -> (r: bool)
        ensures
            r == probe_running(*probe),
    {
        if !probe.socket_exists {
            return false;
        }
        match probe.pid {
            None => false,
            Some(_) => probe.pid_alive,
        }
    }

    /// Decide a start: refused while the VM runs; otherwise the exact
    /// hypervisor process plan for this VM, to be launched by the caller.
    pub fn start(&self, probe: &RunProbe) -> (r: Result<Process, Error>)
        ensures
            match r {
                Ok(p) => !probe_running(*probe) && p@ == (ProcessV {
                    base_dir: self@.path,
                    name: self@.spec.name,
                    cpus: self@.spec.cpus,
                    memory_mb: self@.spec.memory_mb,
                    uuid: self@.id,
                    image: self@.spec.image,
                }),
                Err(e) => e == Error::AlreadyStarted && probe_running(*probe),
            },
    {
        if self.running(probe) {
            return Err(Error::AlreadyStarted);
        }
        let image = Image { path: self.spec.image.clone() };
        Ok(
            Process::new(
                self.path.as_str(),
                self.spec.name.as_str(),
                self.spec.cpus,
                self.spec.memory_mb,
                self.id.as_str(),
                image,
            ),
        )
    }

    /// The monitor exchange for one named command, owed exactly when the
    /// probe shows a running VM.
    fn monitor_request(&self, probe: &RunProbe, command: &str) -> (r: Result<
        MonitorRequest,
        Error,
    >)
        ensures
            match r {
                Ok(req) => probe_running(*probe) && req.socket@ == monitor_sock_chars(self@.path)
                    && req.command@ == command@,
                Err(e) => e == Error::NotStarted && !probe_running(*probe),
            },
    {
        if !self.running(probe) {
            return Err(Error::NotStarted);
        }
        Ok(MonitorRequest { socket: self.monitor_path(), command: command.to_owned() })
    }

    /// Decide a stop: the `stop` command against this VM's socket, owed
    /// exactly when the VM runs.
    pub fn stop(&self, probe: &RunProbe) -> (r: Result<MonitorRequest, Error>)
        ensures
            match r {
                Ok(req) => probe_running(*probe) && req.socket@ == monitor_sock_chars(self@.path)
                    && req.command@ == "stop"@,
                Err(e) => e == Error::NotStarted && !probe_running(*probe),
            },
    {
        self.monitor_request(probe, "stop")
    }

    /// Decide a resume: the `cont` command, owed exactly when the VM runs.
    pub fn cont(&self, probe: &RunProbe) -> (r: Result<MonitorRequest, Error>)
        ensures
            match r {
                Ok(req) => probe_running(*probe) && req.socket@ == monitor_sock_chars(self@.path)
                    && req.command@ == "cont"@,
                Err(e) => e == Error::NotStarted && !probe_running(*probe),
            },
    {
        self.monitor_request(probe, "cont")
    }

    /// Decide a status query: the `query-status` command, owed exactly
    /// when the VM runs.
    pub fn status(&self, probe: &RunProbe) -> (r: Result<MonitorRequest, Error>)
        ensures
            match r {
                Ok(req) => probe_running(*probe) && req.socket@ == monitor_sock_chars(self@.path)
                    && req.command@ == "query-status"@,
                Err(e) => e == Error::NotStarted && !probe_running(*probe),
            },
    {
        self.monitor_request(probe, "query-status")
    }

    /// Decide a teardown: the `quit` command, owed exactly when the VM
    /// runs.
    pub fn destroy(&self, probe: &RunProbe) -> (r: Result<MonitorRequest, Error>)
        ensures
            match r {
                Ok(req) => probe_running(*probe) && req.socket@ == monitor_sock_chars(self@.path)
                    && req.command@ == "quit"@,
                Err(e) => e == Error::NotStarted && !probe_running(*probe),
            },
    {
        self.monitor_request(probe, "quit")
    }

    /// Decide an undefine: a running VM is told to quit first; then the
    /// caller removes the runtime directory for good.
    pub fn undefine(self, probe: &RunProbe) -> (r: Option<MonitorRequest>)
        ensures
            match r {
                Some(req) => probe_running(*probe) && req.socket@ == monitor_sock_chars(self@.path)
                    && req.command@ == "quit"@,
                None => !probe_running(*probe),
            },
    {
        match self.destroy(probe) {
            Ok(req) => Some(req),
            Err(_) => None,
        }
    }
}

/// Relies on uuid: Uuid::new_v4 draws a random identity; its default
/// text form is the hyphenated layout, 36 characters with hyphens after
/// the 8th, 13th, 18th and 23rd.
#[verifier::external_body]
fn fresh_uuid() -> (r: String)
    ensures
        r@.len() == 36,
        r@[8] == '-' && r@[13] == '-' && r@[18] == '-' && r@[23] == '-',
{
    uuid::Uuid::new_v4().to_string()
}

/// The directory of defined VMs.
#[derive(Debug)]
pub struct VMSet {
    path: String,
}

impl View for VMSet {
    type V = Seq<char>;

    /// A set is identified by its directory path.
    closed spec fn view(&self) -> Seq<char> {
        self.path@
    }
}

impl VMSet {
    /// A set rooted at `path`. The caller creates the directory.
    pub fn new(path: &str) -> (r: VMSet)
        ensures
            r@ == path@,
    {
        VMSet { path: path.to_owned() }
    }

    /// The set's root directory.
    pub fn path(&self) -> (r: &str)
        ensures
            r@ == self@,
    {
        self.path.as_str()
    }

    /// The runtime directory a VM of this set with `id` would use.
    pub fn vm_dir(&self, id: &str) -> (r: String)
        ensures
            r@ == self@ + "/"@ + id@,
    {
        let mut s = self.path.clone();
        s.append("/");
        s.append(id);
        s
    }

    /// Define a VM: a fresh random identity, the given specification,
    /// and a runtime directory named after the identity. The caller
    /// creates the directory and persists the specification document.
    pub fn define(&self, spec: Spec) -> (r: VM)
        ensures
            r@.id.len() == 36,
            r@.id[8] == '-' && r@.id[13] == '-' && r@.id[18] == '-' && r@.id[23] == '-',
            r@.spec == spec@,
            r@.path == self@ + "/"@ + r@.id,
    {
        let id = fresh_uuid();
        let path = self.vm_dir(id.as_str());
        VM { id, spec, path }
    }
}

} // verus!
