//! Standalone QEMU shell script synthesizer.

use crate::error::Result;
use crate::model::vm::VmConfig;
use crate::synthesis::libvirt_xml::topology_fits;
use crate::text::{dec, has_substring, lemma_substring_extend, lemma_substring_self, push_decimal, push_str};
use vstd::prelude::*;

verus! {

broadcast use {crate::text::lemma_add_assoc, crate::text::lemma_add_empty};

/// The fixed `-cpu` line: host passthrough with invariant TSC and the Hyper-V enlightenments.
pub open spec fn qemu_cpu_line() -> Seq<char> {
    "  -cpu host,migratable=off,+invtsc,+tsc-deadline,hv_relaxed,hv_vapic,hv_spinlocks=0x1fff,hv_vpindex,hv_runtime,hv_synic,hv_stimer,hv_stimer_direct,hv_frequencies,hv_tlbflush,hv_ipi,hv_reenlightenment \\\n"@
}

pub open spec fn qemu_head(c: VmConfig) -> Seq<char> {
    "#!/usr/bin/env bash\n"@
        + "# Auto-generated standalone Windows 11 launcher by Clerestory\n"@
        + "set -euo pipefail\n\n"@
        + "qemu-system-x86_64 \\\n"@
        + "  -name '"@ + c.name@ + "' \\\n"@
        + "  -enable-kvm \\\n"@
        + "  -machine q35,smm=on,accel=kvm \\\n"@
        + "  -m "@ + dec(c.memory_mb as nat) + "M \\\n"@
        + "  -smp "@ + dec((c.sockets * c.cores_per_socket * c.threads_per_core) as nat)
        + ",sockets="@ + dec(c.sockets as nat) + ",cores="@ + dec(c.cores_per_socket as nat)
        + ",threads="@ + dec(c.threads_per_core as nat) + " \\\n"@
        + qemu_cpu_line()
}

pub open spec fn qemu_disks(c: VmConfig) -> Seq<char> {
    "  -device virtio-scsi-pci,id=scsi0,iothread=iothread0,num_queues="@ + dec(c.disk.queues as nat) + " \\\n"@
        + "  -object iothread,id=iothread0 \\\n"@
        + "  -drive file='"@ + c.disk.path@ + "',if=none,id=drive0,format="@ + c.disk.format@
        + ",cache="@ + c.disk.cache@ + ",aio="@ + c.disk.io_engine@ + " \\\n"@
        + "  -device scsi-hd,drive=drive0,bus=scsi0.0,id=hd0,discard_granularity=512 \\\n"@
        + match c.unattended.driver_disk_path {
            Some(drv) => "  -drive file='"@ + drv@ + "',if=none,id=oemdrv,format=raw,media=cdrom,readonly=on \\\n"@
                + "  -device scsi-cd,drive=oemdrv,bus=scsi0.0,id=cd0 \\\n"@,
            None => Seq::empty(),
        }
        + "  -drive file='"@ + c.win11_iso_path@ + "',if=none,id=winiso,format=raw,media=cdrom,readonly=on \\\n"@
        + "  -device scsi-cd,drive=winiso,bus=scsi0.0,id=cd1 \\\n"@
}

pub open spec fn qemu_tail() -> Seq<char> {
    "  -netdev user,id=net0 -device virtio-net-pci,netdev=net0 \\\n"@
        + "  -vga qxl -spice port=5900,disable-ticketing=on \\\n"@
        + "  -device virtio-serial-pci -device virtserialport,chardev=qga0,name=org.qemu.guest_agent.0 \\\n"@
        + "  -chardev socket,path=/tmp/qga.sock,server=on,wait=off,id=qga0\n"@
}

/// The complete launcher script for `c`.
pub open spec fn qemu_script(c: VmConfig) -> Seq<char> {
    qemu_head(c) + qemu_disks(c) + qemu_tail()
}

fn push_head(out: &mut String, c: &VmConfig)
    requires
        topology_fits(*c),
    ensures
        final(out)@ == old(out)@ + qemu_head(*c),
{
    push_str(out, "#!/usr/bin/env bash\n");
    push_str(out, "# Auto-generated standalone Windows 11 launcher by Clerestory\n");
    push_str(out, "set -euo pipefail\n\n");
    push_str(out, "qemu-system-x86_64 \\\n");
    push_str(out, "  -name '");
    push_str(out, c.name.as_str());
    push_str(out, "' \\\n");
    push_str(out, "  -enable-kvm \\\n");
    push_str(out, "  -machine q35,smm=on,accel=kvm \\\n");
    push_str(out, "  -m ");
    push_decimal(out, c.memory_mb);
    push_str(out, "M \\\n");
    push_str(out, "  -smp ");
    push_decimal(out, (c.sockets * c.cores_per_socket * c.threads_per_core) as u64);
    push_str(out, ",sockets=");
    push_decimal(out, c.sockets as u64);
    push_str(out, ",cores=");
    push_decimal(out, c.cores_per_socket as u64);
    push_str(out, ",threads=");
    push_decimal(out, c.threads_per_core as u64);
    push_str(out, " \\\n");
    push_str(out, "  -cpu host,migratable=off,+invtsc,+tsc-deadline,hv_relaxed,hv_vapic,hv_spinlocks=0x1fff,hv_vpindex,hv_runtime,hv_synic,hv_stimer,hv_stimer_direct,hv_frequencies,hv_tlbflush,hv_ipi,hv_reenlightenment \\\n");
    assert(out@ == old(out)@ + qemu_head(*c));
}

fn push_disks(out: &mut String, c: &VmConfig)
    ensures
        final(out)@ == old(out)@ + qemu_disks(*c),
{
    push_str(out, "  -device virtio-scsi-pci,id=scsi0,iothread=iothread0,num_queues=");
    push_decimal(out, c.disk.queues as u64);
    push_str(out, " \\\n");
    push_str(out, "  -object iothread,id=iothread0 \\\n");
    push_str(out, "  -drive file='");
    push_str(out, c.disk.path.as_str());
    push_str(out, "',if=none,id=drive0,format=");
    push_str(out, c.disk.format.as_str());
    push_str(out, ",cache=");
    push_str(out, c.disk.cache.as_str());
    push_str(out, ",aio=");
    push_str(out, c.disk.io_engine.as_str());
    push_str(out, " \\\n");
    push_str(out, "  -device scsi-hd,drive=drive0,bus=scsi0.0,id=hd0,discard_granularity=512 \\\n");
    let ghost a = out@;
    match &c.unattended.driver_disk_path {
        Some(drv) => {
            push_str(out, "  -drive file='");
            push_str(out, drv.as_str());
            push_str(out, "',if=none,id=oemdrv,format=raw,media=cdrom,readonly=on \\\n");
            push_str(out, "  -device scsi-cd,drive=oemdrv,bus=scsi0.0,id=cd0 \\\n");
        },
        None => {},
    }
    assert(out@ == a + match c.unattended.driver_disk_path {
        Some(drv) => "  -drive file='"@ + drv@ + "',if=none,id=oemdrv,format=raw,media=cdrom,readonly=on \\\n"@
            + "  -device scsi-cd,drive=oemdrv,bus=scsi0.0,id=cd0 \\\n"@,
        None => Seq::empty(),
    });
    push_str(out, "  -drive file='");
    push_str(out, c.win11_iso_path.as_str());
    push_str(out, "',if=none,id=winiso,format=raw,media=cdrom,readonly=on \\\n");
    push_str(out, "  -device scsi-cd,drive=winiso,bus=scsi0.0,id=cd1 \\\n");
    assert(out@ == old(out)@ + qemu_disks(*c));
}

pub struct QemuScriptSynthesizer;

impl QemuScriptSynthesizer {
    /// Generates a self-contained portable `run.sh` script.
    ///
    /// Always succeeds; the script is exactly `qemu_script(config)`.
    pub fn synthesize(config: &VmConfig) -> (r: Result<String>)
        requires
            topology_fits(*config),
        ensures
            r matches Ok(s) && s@ == qemu_script(*config),
    {
        let mut script = String::new();
        push_head(&mut script, config);
        push_disks(&mut script, config);
        push_str(&mut script, "  -netdev user,id=net0 -device virtio-net-pci,netdev=net0 \\\n");
        push_str(&mut script, "  -vga qxl -spice port=5900,disable-ticketing=on \\\n");
        push_str(&mut script, "  -device virtio-serial-pci -device virtserialport,chardev=qga0,name=org.qemu.guest_agent.0 \\\n");
        push_str(&mut script, "  -chardev socket,path=/tmp/qga.sock,server=on,wait=off,id=qga0\n");
        assert(script@ =~= Seq::<char>::empty() + qemu_head(*config) + qemu_disks(*config) + qemu_tail());
        Ok(script)
    }
}


/// The `-smp` option for `n` vCPUs laid out as the given topology.
pub open spec fn smp_option(n: nat, sockets: u32, cores: u32, threads: u32) -> Seq<char> {
    "  -smp "@ + dec(n) + ",sockets="@ + dec(sockets as nat) + ",cores="@ + dec(cores as nat)
        + ",threads="@ + dec(threads as nat) + " \\\n"@
}

/// The launcher starts the guest with sockets × cores per socket × threads per
/// core vCPUs, in that topology: the same count the domain XML declares when
/// nothing is pinned.
pub proof fn law_smp_total(c: VmConfig)
    ensures
        has_substring(qemu_script(c), smp_option(
            (c.sockets * c.cores_per_socket * c.threads_per_core) as nat,
            c.sockets, c.cores_per_socket, c.threads_per_core)),
{
    let n = dec((c.sockets * c.cores_per_socket * c.threads_per_core) as nat);
    let s1 = "  -smp "@;
    let s2 = ",sockets="@;
    let d2 = dec(c.sockets as nat);
    let s3 = ",cores="@;
    let d3 = dec(c.cores_per_socket as nat);
    let s4 = ",threads="@;
    let d4 = dec(c.threads_per_core as nat);
    let s5 = " \\\n"@;
    let t = smp_option((c.sockets * c.cores_per_socket * c.threads_per_core) as nat, c.sockets, c.cores_per_socket, c.threads_per_core);
    let a = "#!/usr/bin/env bash\n"@
        + "# Auto-generated standalone Windows 11 launcher by Clerestory\n"@
        + "set -euo pipefail\n\n"@
        + "qemu-system-x86_64 \\\n"@
        + "  -name '"@ + c.name@ + "' \\\n"@
        + "  -enable-kvm \\\n"@
        + "  -machine q35,smm=on,accel=kvm \\\n"@
        + "  -m "@ + dec(c.memory_mb as nat) + "M \\\n"@;
    assert(t == s1 + n + s2 + d2 + s3 + d3 + s4 + d4 + s5);
    crate::text::lemma_add_assoc(a, s1, n);
    crate::text::lemma_add_assoc(a, s1 + n, s2);
    crate::text::lemma_add_assoc(a, s1 + n + s2, d2);
    crate::text::lemma_add_assoc(a, s1 + n + s2 + d2, s3);
    crate::text::lemma_add_assoc(a, s1 + n + s2 + d2 + s3, d3);
    crate::text::lemma_add_assoc(a, s1 + n + s2 + d2 + s3 + d3, s4);
    crate::text::lemma_add_assoc(a, s1 + n + s2 + d2 + s3 + d3 + s4, d4);
    crate::text::lemma_add_assoc(a, s1 + n + s2 + d2 + s3 + d3 + s4 + d4, s5);
    assert(qemu_head(c) == a + t + qemu_cpu_line());
    lemma_substring_self(t);
    lemma_substring_extend(t, a, t);
    lemma_substring_extend(a + t, qemu_cpu_line(), t);
    lemma_substring_extend(qemu_head(c), qemu_disks(c), t);
    lemma_substring_extend(qemu_head(c) + qemu_disks(c), qemu_tail(), t);
}

} // verus!
