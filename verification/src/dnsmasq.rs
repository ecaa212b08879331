//! The DHCP daemon's configuration: where its state files live, the
//! exact invocation that starts it, and the one-line host records that
//! pin a MAC and address to a hostname. Spawning the daemon, signalling
//! it, and writing the files is the caller's business.

use vstd::prelude::*;

use crate::network::{ipv4_chars, ipv4_string};
use crate::qemu::strings_view;

verus! {

/// The DHCP daemon's state directory and derived paths.
#[derive(Debug)]
pub struct Dnsmasq {
    path: String,
}

impl View for Dnsmasq {
    type V = Seq<char>;

    /// The daemon is identified by its state directory.
    closed spec fn view(&self) -> Seq<char> {
        self.path@
    }
}

/// The daemon invocation: strict ordering, our pid file, a hosts
/// directory it watches, a static management range on the bridge, and
/// the per-lease hook program.
pub open spec fn dnsmasq_args(base: Seq<char>) -> Seq<Seq<char>> {
    seq![
        "--strict-order"@,
        "--bind-interfaces"@,
        "--pid-file="@ + base + "/dnsmasq.pid"@,
        "--dhcp-hostsdir="@ + base + "/hosts"@,
        "--conf-file="@ + base + "/conf"@,
        "--dhcp-range=set:mgmt,172.20.0.2,static,255.255.255.0,30m"@,
        "--interface=br0"@,
        "--except-interface=lo"@,
        "--domain=cloud.local"@,
        "--dhcp-authoritative"@,
        "--dhcp-option=3"@,
        "--port=0"@,
        "--dhcp-script=/usr/local/sbin/bigiron-dhcpbridge"@,
        "--leasefile-ro"@,
    ]
}

impl Dnsmasq {
    /// The daemon at its fixed state directory. The caller creates the
    /// directories.
    pub fn new() -> (r: Dnsmasq)
        ensures
            r@ == "/var/lib/bigiron/dnsmasq"@,
    {
        Dnsmasq { path: "/var/lib/bigiron/dnsmasq".to_owned() }
    }

    /// The directory of per-host record files the daemon watches.
    pub fn hostsdir(&self) -> (r: String)
        ensures
            r@ == self@ + "/hosts"@,
    {
        let mut s = self.path.clone();
        s.append("/hosts");
        s
    }

    /// Where the daemon writes leases.
    pub fn leasefile(&self) -> (r: String)
        ensures
            r@ == self@ + "/leases"@,
    {
        let mut s = self.path.clone();
        s.append("/leases");
        s
    }

    /// Where the daemon records its pid.
    pub fn pidfile(&self) -> (r: String)
        ensures
            r@ == self@ + "/dnsmasq.pid"@,
    {
        let mut s = self.path.clone();
        s.append("/dnsmasq.pid");
        s
    }

    /// The daemon's otherwise empty configuration file.
    pub fn conffile(&self) -> (r: String)
        ensures
            r@ == self@ + "/conf"@,
    {
        let mut s = self.path.clone();
        s.append("/conf");
        s
    }

    /// The exact argument list that starts the daemon.
    pub fn start_args(&self) -> (r: Vec<String>)
        ensures
            strings_view(r@) == dnsmasq_args(self@),
    {
        let mut a: Vec<String> = Vec::new();
        a.push("--strict-order".to_owned());
        a.push("--bind-interfaces".to_owned());
        let mut pidarg = "--pid-file=".to_owned();
        let pf = self.pidfile();
        pidarg.append(pf.as_str());
        a.push(pidarg);
        let mut hostsarg = "--dhcp-hostsdir=".to_owned();
        let hd = self.hostsdir();
        hostsarg.append(hd.as_str());
        a.push(hostsarg);
        let mut confarg = "--conf-file=".to_owned();
        let cf = self.conffile();
        confarg.append(cf.as_str());
        a.push(confarg);
        a.push("--dhcp-range=set:mgmt,172.20.0.2,static,255.255.255.0,30m".to_owned());
        a.push("--interface=br0".to_owned());
        a.push("--except-interface=lo".to_owned());
        a.push("--domain=cloud.local".to_owned());
        a.push("--dhcp-authoritative".to_owned());
        a.push("--dhcp-option=3".to_owned());
        a.push("--port=0".to_owned());
        a.push("--dhcp-script=/usr/local/sbin/bigiron-dhcpbridge".to_owned());
        a.push("--leasefile-ro".to_owned());
        proof {
            assert(strings_view(a@) =~~= dnsmasq_args(self@));
        }
        a
    }

    /// The record file for one hostname inside the hosts directory.
    pub fn host_file_path(&self, hostname: &str) -> (r: String)
        ensures
            r@ == self@ + "/hosts"@ + "/"@ + hostname@,
    {
        let mut s = self.hostsdir();
        s.append("/");
        s.append(hostname);
        s
    }

    /// One host record line: MAC, dotted address, hostname, and the
    /// one-hour lease time.
    pub fn host_record(&self, mac: &str, ip: u32, hostname: &str) -> (r: String)
        ensures
            r@ == mac@ + ","@ + ipv4_chars(ip) + ","@ + hostname@ + ",3600"@,
    {
        let mut s = mac.to_owned();
        s.append(",");
        let dotted = ipv4_string(ip);
        s.append(dotted.as_str());
        s.append(",");
        s.append(hostname);
        s.append(",3600");
        proof {
            assert(s@ =~= mac@ + ","@ + ipv4_chars(ip) + ","@ + hostname@ + ",3600"@);
        }
        s
    }
}

} // verus!
