//! The declarative definition backend: the exact domain document that
//! describes a machine to the virtualization daemon. Talking to the
//! daemon itself is the caller's business; this module only writes the
//! document.

use vstd::prelude::*;

use crate::error::Error;
use crate::models::{size_spec, to_size, Machine};
use crate::text::dec_chars;

verus! {

/// The domain document for a machine: its name, its memory in bytes
/// (twice: ceiling and current), its CPU count, the resolved disk image,
/// and one bridged interface with the reserved MAC.
pub open spec fn domain_xml_chars(
    name: Seq<char>,
    memory_bytes: nat,
    cpus: u32,
    image_file: Seq<char>,
    bridge: Seq<char>,
    mac: Seq<char>,
) -> Seq<char> {
    "\n<domain type='kvm'>\n  <name>"@ + name + "</name>\n  <memory unit=\"bytes\">"@ + dec_chars(
        memory_bytes,
    ) + "</memory>\n  <currentMemory unit=\"bytes\">"@ + dec_chars(memory_bytes)
        + "</currentMemory>\n  <vcpu>"@ + dec_chars(cpus as nat)
        + "</vcpu>\n  <os>\n    <type arch='x86_64' machine='pc'>hvm</type>\n    <boot dev='hd'/>\n  </os>\n  <features>\n    <acpi/>\n    <apic/>\n  </features>\n  <clock offset='utc'/>\n  <pm>\n    <suspend-to-mem enabled='no'/>\n    <suspend-to-disk enabled='no'/>\n  </pm>\n  <devices>\n    <emulator>/usr/bin/kvm</emulator>\n    <disk type='file' device='disk'>\n      <driver name='qemu' type='qcow2' cache='writeback'/>\n      <source file='"@
        + image_file
        + "'/>\n      <target dev='vda' bus='virtio'/>\n    </disk>\n    <serial type='pty'>\n      <source path='/dev/pts/0'/>\n      <target type='isa-serial' port='0'/>\n    </serial>\n    <input type='keyboard' bus='ps2'/>\n    <input type='mouse' bus='ps2'/>\n    <interface type=\"bridge\">\n      <source bridge=\""@
        + bridge + "\"/>\n      <mac address=\""@ + mac
        + "\"/>\n    </interface>\n    <memballoon model='virtio'/>\n  </devices>\n</domain>\n    "@
}

/// Write the domain document for a machine.
///
/// The machine's memory size string must parse under the size grammar
/// and fit in 64 bits; any other memory string is a size error.
pub fn domain_xml(machine: &Machine, image_file: &str, bridge_name: &str, macaddr: &str) -> (r:
    Result<String, Error>)
    ensures
        match r {
            Ok(x) => match size_spec(machine.spec.memory@) {
                Some(mem) => mem <= u64::MAX && x@ == domain_xml_chars(
                    machine.name@,
                    mem,
                    machine.spec.cpu,
                    image_file@,
                    bridge_name@,
                    macaddr@,
                ),
                None => false,
            },
            Err(e) => e == Error::BadSize && (match size_spec(machine.spec.memory@) {
                Some(mem) => mem > u64::MAX,
                None => true,
            }),
        },
{
    let memory_bytes = match to_size(machine.spec.memory.as_str()) {
        Ok(v) => v,
        Err(e) => {
            return Err(e);
        },
    };
    let mut x = "\n<domain type='kvm'>\n  <name>".to_owned();
    x.append(machine.name.as_str());
    x.append("</name>\n  <memory unit=\"bytes\">");
    crate::text::push_dec_u64(&mut x, memory_bytes);
    x.append("</memory>\n  <currentMemory unit=\"bytes\">");
    crate::text::push_dec_u64(&mut x, memory_bytes);
    x.append("</currentMemory>\n  <vcpu>");
    crate::text::push_dec_u64(&mut x, machine.spec.cpu as u64);
    x.append(
        "</vcpu>\n  <os>\n    <type arch='x86_64' machine='pc'>hvm</type>\n    <boot dev='hd'/>\n  </os>\n  <features>\n    <acpi/>\n    <apic/>\n  </features>\n  <clock offset='utc'/>\n  <pm>\n    <suspend-to-mem enabled='no'/>\n    <suspend-to-disk enabled='no'/>\n  </pm>\n  <devices>\n    <emulator>/usr/bin/kvm</emulator>\n    <disk type='file' device='disk'>\n      <driver name='qemu' type='qcow2' cache='writeback'/>\n      <source file='",
    );
    x.append(image_file);
    x.append(
        "'/>\n      <target dev='vda' bus='virtio'/>\n    </disk>\n    <serial type='pty'>\n      <source path='/dev/pts/0'/>\n      <target type='isa-serial' port='0'/>\n    </serial>\n    <input type='keyboard' bus='ps2'/>\n    <input type='mouse' bus='ps2'/>\n    <interface type=\"bridge\">\n      <source bridge=\"",
    );
    x.append(bridge_name);
    x.append("\"/>\n      <mac address=\"");
    x.append(macaddr);
    x.append(
        "\"/>\n    </interface>\n    <memballoon model='virtio'/>\n  </devices>\n</domain>\n    ",
    );
    proof {
        assert(x@ =~= domain_xml_chars(
            machine.name@,
            memory_bytes as nat,
            machine.spec.cpu,
            image_file@,
            bridge_name@,
            macaddr@,
        ));
    }
    Ok(x)
}

} // verus!
