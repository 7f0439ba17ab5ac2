//! Production Libvirt Domain XML synthesis for Windows 11 on KVM.

use crate::error::Result;
use crate::model::enlightenments::{ClockTimers, HyperVEnlightenments};
use crate::model::vm::{CpuPinningMap, GpuMode, VmConfig};
use crate::text::{
    chars_of, dec, lemma_split_on_nonempty, push_chars, push_decimal, push_str, split_chars,
    split_on, views, push_char, has_substring, lemma_substring_extend, lemma_substring_self,
};
use vstd::prelude::*;

verus! {

broadcast use {crate::text::lemma_add_assoc, crate::text::lemma_add_empty};

/// `s` when `b` holds, nothing otherwise.
pub open spec fn when(b: bool, s: Seq<char>) -> Seq<char> {
    if b { s } else { Seq::empty() }
}

/// Comma-separated decimal list, as `join(",")` renders it.
pub open spec fn join_dec(s: Seq<u32>) -> Seq<char>
    decreases s.len(),
{
    if s.len() == 0 {
        Seq::empty()
    } else if s.len() == 1 {
        dec(s[0] as nat)
    } else {
        join_dec(s.drop_last()).push(',') + dec(s.last() as nat)
    }
}

/// The number of vCPUs the domain declares.
pub open spec fn total_vcpus(c: VmConfig) -> u32 {
    match c.pinning {
        Some(p) => p.vcpu_pins@.len() as u32,
        None => (c.sockets * c.cores_per_socket * c.threads_per_core) as u32,
    }
}

pub open spec fn header_xml(c: VmConfig) -> Seq<char> {
    "<domain type='kvm'>\n"@
        + "  <name>"@ + c.name@ + "</name>\n"@
        + "  <memory unit='MiB'>"@ + dec(c.memory_mb as nat) + "</memory>\n"@
        + "  <currentMemory unit='MiB'>"@ + dec(c.memory_mb as nat) + "</currentMemory>\n"@
        + "  <vcpu placement='static'>"@ + dec(total_vcpus(c) as nat) + "</vcpu>\n"@
        + "  <iothreads>1</iothreads>\n"@
}

pub open spec fn vcpupin_line(pin: (u32, u32)) -> Seq<char> {
    "    <vcpupin vcpu='"@ + dec(pin.0 as nat) + "' cpuset='"@ + dec(pin.1 as nat) + "'/>\n"@
}

pub open spec fn vcpupin_lines(pins: Seq<(u32, u32)>) -> Seq<char>
    decreases pins.len(),
{
    if pins.len() == 0 {
        Seq::empty()
    } else {
        vcpupin_lines(pins.drop_last()) + vcpupin_line(pins.last())
    }
}

pub open spec fn cputune_xml(p: CpuPinningMap) -> Seq<char> {
    "  <cputune>\n"@
        + vcpupin_lines(p.vcpu_pins@)
        + when(p.emulator_pins@.len() > 0,
            "    <emulatorpin cpuset='"@ + join_dec(p.emulator_pins@) + "'/>\n"@)
        + when(p.iothread_pins@.len() > 0,
            "    <iothreadpin iothread='1' cpuset='"@ + join_dec(p.iothread_pins@) + "'/>\n"@)
        + "  </cputune>\n"@
}

pub open spec fn memory_backing_xml(c: VmConfig) -> Seq<char> {
    "  <memoryBacking>\n"@
        + when(c.use_hugepages, match c.hugepage_size_kb {
            Some(sz) => "    <hugepages><page size='"@ + dec(sz as nat) + "' unit='KiB'/></hugepages>\n"@,
            None => "    <hugepages/>\n"@,
        })
        + "    <source type='memfd'/>\n"@
        + "    <access mode='shared'/>\n"@
        + "  </memoryBacking>\n"@
}

pub open spec fn os_xml(c: VmConfig) -> Seq<char> {
    "  <os firmware='efi'>\n"@
        + "    <type arch='x86_64' machine='q35'>hvm</type>\n"@
        + "    <firmware>\n"@
        + "      <feature enabled='yes' name='secure-boot'/>\n"@
        + "      <feature enabled='yes' name='enrolled-keys'/>\n"@
        + "    </firmware>\n"@
        + match c.ovmf_code {
            Some(code) => "    <loader readonly='yes' type='pflash'>"@ + code@ + "</loader>\n"@,
            None => Seq::empty(),
        }
        + match c.ovmf_vars {
            Some(vars) => "    <nvram template='"@ + vars@ + "'>"@
                + "/var/lib/libvirt/qemu/nvram/"@ + c.name@ + "_VARS.fd"@ + "</nvram>\n"@,
            None => Seq::empty(),
        }
        + "    <boot dev='hd'/>\n"@
        + "    <boot dev='cdrom'/>\n"@
        + "  </os>\n"@
}

pub open spec fn hyperv_xml(h: HyperVEnlightenments) -> Seq<char> {
    "    <hyperv mode='custom'>\n"@
        + when(h.relaxed, "      <relaxed state='on'/>\n"@)
        + when(h.vapic, "      <vapic state='on'/>\n"@)
        + "      <spinlocks state='on' retries='"@ + dec(h.spinlocks_retries as nat) + "'/>\n"@
        + when(h.vpindex, "      <vpindex state='on'/>\n"@)
        + when(h.runtime, "      <runtime state='on'/>\n"@)
        + when(h.synic, "      <synic state='on'/>\n"@)
        + (if h.stimer_direct {
            "      <stimer state='on'>\n        <direct state='on'/>\n      </stimer>\n"@
        } else {
            "      <stimer state='on'/>\n"@
        })
        + when(h.reset, "      <reset state='on'/>\n"@)
        + when(h.frequencies, "      <frequencies state='on'/>\n"@)
        + when(h.reenlightenment, "      <reenlightenment state='on'/>\n"@)
        + when(h.tlbflush, "      <tlbflush state='on'/>\n"@)
        + when(h.ipi, "      <ipi state='on'/>\n"@)
        + when(h.evmcs, "      <evmcs state='on'/>\n"@)
        + when(h.avic, "      <avic state='on'/>\n"@)
        + "    </hyperv>\n"@
}

pub open spec fn features_xml(h: HyperVEnlightenments) -> Seq<char> {
    "  <features>\n"@
        + "    <acpi/>\n"@
        + "    <apic/>\n"@
        + hyperv_xml(h)
        + "    <kvm>\n      <hidden state='on'/>\n    </kvm>\n"@
        + "    <ioapic driver='kvm'/>\n"@
        + "  </features>\n"@
}

pub open spec fn cpu_xml(c: VmConfig, is_amd: bool) -> Seq<char> {
    "  <cpu mode='host-passthrough' check='none' migratable='off'>\n"@
        + "    <topology sockets='"@ + dec(c.sockets as nat) + "' dies='1' cores='"@
        + dec(c.cores_per_socket as nat) + "' threads='"@ + dec(c.threads_per_core as nat) + "'/>\n"@
        + "    <feature policy='require' name='invtsc'/>\n"@
        + "    <feature policy='require' name='tsc-deadline'/>\n"@
        + when(is_amd, "    <feature policy='require' name='topoext'/>\n"@)
        + "  </cpu>\n"@
}

pub open spec fn clock_xml(t: ClockTimers) -> Seq<char> {
    "  <clock offset='localtime'>\n"@
        + when(t.rtc_catchup, "    <timer name='rtc' tickpolicy='catchup'/>\n"@)
        + when(t.pit_discard, "    <timer name='pit' tickpolicy='discard'/>\n"@)
        + when(t.hpet_disabled, "    <timer name='hpet' present='no'/>\n"@)
        + when(t.kvmclock_disabled, "    <timer name='kvmclock' present='no'/>\n"@)
        + when(t.hypervclock_enabled, "    <timer name='hypervclock' present='yes'/>\n"@)
        + when(t.tsc_native, "    <timer name='tsc' present='yes' mode='native'/>\n"@)
        + "  </clock>\n"@
}

pub open spec fn storage_xml(c: VmConfig) -> Seq<char> {
    "  <devices>\n"@
        + "    <emulator>/usr/bin/qemu-system-x86_64</emulator>\n"@
        + "    <controller type='scsi' model='virtio-scsi' index='0'>\n      <driver iothread='1' queues='"@
        + dec(c.disk.queues as nat) + "'/>\n    </controller>\n"@
        + "    <disk type='file' device='disk'>\n      <driver name='qemu' type='"@ + c.disk.format@
        + "' cache='"@ + c.disk.cache@ + "' io='"@ + c.disk.io_engine@ + "' "@
        + (if c.disk.discard_unmap { "discard='unmap' detect_zeroes='unmap'"@ } else { ""@ })
        + "/>\n      <source file='"@ + c.disk.path@
        + "'/>\n      <target dev='sda' bus='scsi'/>\n      <address type='drive' controller='0' bus='0' target='0' unit='0'/>\n    </disk>\n"@
        + match c.unattended.driver_disk_path {
            Some(drv) => "    <disk type='file' device='cdrom'>\n      <driver name='qemu' type='raw'/>\n      <source file='"@
                + drv@
                + "'/>\n      <target dev='sdb' bus='scsi'/>\n      <readonly/>\n      <address type='drive' controller='0' bus='0' target='0' unit='1'/>\n    </disk>\n"@,
            None => Seq::empty(),
        }
        + "    <disk type='file' device='cdrom'>\n      <driver name='qemu' type='raw'/>\n      <source file='"@
        + c.win11_iso_path@
        + "'/>\n      <target dev='sdc' bus='scsi'/>\n      <readonly/>\n      <address type='drive' controller='0' bus='0' target='0' unit='2'/>\n    </disk>\n"@
}

pub open spec fn peripherals_xml(c: VmConfig) -> Seq<char> {
    "    <tpm model='tpm-crb'>\n      <backend type='emulator' version='2.0'/>\n    </tpm>\n"@
        + "    <interface type='network'>\n      <source network='default'/>\n      <model type='virtio'/>\n    </interface>\n"@
        + "    <sound model='ich9'>\n      <audio id='1'/>\n    </sound>\n"@
        + "    <audio id='1' type='pipewire'/>\n"@
        + match c.shared_directory {
            Some(dir) => "    <filesystem type='mount' accessmode='passthrough'>\n      <driver type='virtiofs' queue='1024'/>\n      <binary path='/usr/libexec/virtiofsd' xattr='on'/>\n      <source dir='"@
                + dir@ + "'/>\n      <target dir='clerestory_share'/>\n    </filesystem>\n"@,
            None => Seq::empty(),
        }
}

/// The (domain, bus, slot, function) fields of a PCI address "DDDD:BB:SS.F";
/// a missing "SS.F" reads as "00.0" and a missing function as "0".
/// `None` when the address has no ':' at all.
pub open spec fn pci_fields(addr: Seq<char>) -> Option<(Seq<char>, Seq<char>, Seq<char>, Seq<char>)> {
    let parts = split_on(addr, ':');
    if parts.len() >= 2 {
        let sf = split_on(if parts.len() > 2 { parts[2] } else { "00.0"@ }, '.');
        Some((parts[0], parts[1], sf[0], if sf.len() > 1 { sf[1] } else { "0"@ }))
    } else {
        None
    }
}

pub open spec fn gpu_xml(g: GpuMode) -> Seq<char> {
    match g {
        GpuMode::SpiceVirtio =>
            "    <graphics type='spice' autoport='yes'>\n      <listen type='address'/>\n      <image compression='off'/>\n      <gl enable='no'/>\n    </graphics>\n"@
            + "    <video>\n      <model type='qxl' ram='65536' vram='65536' vgamem='16384' heads='1' primary='yes'/>\n    </video>\n"@,
        GpuMode::LookingGlass { shm_size_mb } =>
            "    <shmem name='looking-glass'>\n      <model type='ivshmem-plain'/>\n      <size unit='M'>"@
            + dec(shm_size_mb as nat) + "</size>\n    </shmem>\n"@
            + "    <graphics type='spice' autoport='yes'>\n      <listen type='address'/>\n    </graphics>\n"@
            + "    <video>\n      <model type='qxl' ram='65536' vram='65536' heads='1' primary='yes'/>\n    </video>\n"@,
        GpuMode::VfioPassthrough { pci_address } => match pci_fields(pci_address@) {
            Some(f) =>
                "    <hostdev mode='subsystem' type='pci' managed='yes'>\n      <source>\n        <address domain='0x"@
                + f.0 + "' bus='0x"@ + f.1 + "' slot='0x"@ + f.2 + "' function='0x"@ + f.3
                + "'/>\n      </source>\n    </hostdev>\n"@,
            None => Seq::empty(),
        },
    }
}

pub open spec fn tail_xml() -> Seq<char> {
    "    <channel type='unix'>\n      <target type='virtio' name='org.qemu.guest_agent.0'/>\n    </channel>\n"@
        + "  </devices>\n"@
        + "</domain>\n"@
}

/// The complete libvirt domain document for `c`.
pub open spec fn libvirt_xml(c: VmConfig, is_amd: bool) -> Seq<char> {
    header_xml(c)
        + match c.pinning { Some(p) => cputune_xml(p), None => Seq::empty() }
        + memory_backing_xml(c)
        + os_xml(c)
        + features_xml(c.hyperv)
        + cpu_xml(c, is_amd)
        + clock_xml(c.clocks)
        + storage_xml(c)
        + peripherals_xml(c)
        + gpu_xml(c.gpu)
        + tail_xml()
}

/// The product of the declared topology fits in a `u32`.
pub open spec fn topology_fits(c: VmConfig) -> bool {
    &&& c.sockets * c.cores_per_socket <= u32::MAX
    &&& c.sockets * c.cores_per_socket * c.threads_per_core <= u32::MAX
}

} // verus!

verus! {

/// Appends the comma-separated decimal list of `v`.
pub fn push_join_dec(out: &mut String, v: &Vec<u32>)
    ensures
        final(out)@ == old(out)@ + join_dec(v@),
{
    let ghost start = out@;
    let mut i: usize = 0;
    assert(v@.take(0) =~= Seq::<u32>::empty());
    assert(out@ =~= start + join_dec(v@.take(0)));
    while i < v.len()
        invariant
            i <= v.len(),
            out@ == start + join_dec(v@.take(i as int)),
        decreases v.len() - i,
    {
        let ghost before = out@;
        if i > 0 {
            push_char(out, ',');
        }
        push_decimal(out, v[i] as u64);
        assert(v@.take(i + 1).drop_last() =~= v@.take(i as int));
        assert(v@.take(i + 1).last() == v@[i as int]);
        assert(out@ =~= start + join_dec(v@.take(i + 1)));
        i = i + 1;
    }
    assert(v@.take(v.len() as int) =~= v@);
}

fn push_header(out: &mut String, c: &VmConfig)
    requires
        c.pinning is Some || topology_fits(*c),
    ensures
        final(out)@ == old(out)@ + header_xml(*c),
{
    let total: u32 = match &c.pinning {
        Some(p) => #[verifier::truncate] (p.vcpu_pins.len() as u32),
        None => c.sockets * c.cores_per_socket * c.threads_per_core,
    };
    push_str(out, "<domain type='kvm'>\n");
    push_str(out, "  <name>");
    push_str(out, c.name.as_str());
    push_str(out, "</name>\n");
    push_str(out, "  <memory unit='MiB'>");
    push_decimal(out, c.memory_mb);
    push_str(out, "</memory>\n");
    push_str(out, "  <currentMemory unit='MiB'>");
    push_decimal(out, c.memory_mb);
    push_str(out, "</currentMemory>\n");
    push_str(out, "  <vcpu placement='static'>");
    push_decimal(out, total as u64);
    push_str(out, "</vcpu>\n");
    push_str(out, "  <iothreads>1</iothreads>\n");
    assert(out@ == old(out)@ + header_xml(*c));
}

fn push_cputune(out: &mut String, p: &CpuPinningMap)
    ensures
        final(out)@ == old(out)@ + cputune_xml(*p),
{
    let ghost start = out@;
    push_str(out, "  <cputune>\n");
    let ghost mid = out@;
    let mut i: usize = 0;
    assert(p.vcpu_pins@.take(0) =~= Seq::<(u32, u32)>::empty());
    assert(out@ =~= mid + vcpupin_lines(p.vcpu_pins@.take(0)));
    while i < p.vcpu_pins.len()
        invariant
            i <= p.vcpu_pins.len(),
            out@ == mid + vcpupin_lines(p.vcpu_pins@.take(i as int)),
        decreases p.vcpu_pins.len() - i,
    {
        let (vcpu, host) = p.vcpu_pins[i];
        push_str(out, "    <vcpupin vcpu='");
        push_decimal(out, vcpu as u64);
        push_str(out, "' cpuset='");
        push_decimal(out, host as u64);
        push_str(out, "'/>\n");
        assert(p.vcpu_pins@.take(i + 1).drop_last() =~= p.vcpu_pins@.take(i as int));
        assert(out@ =~= mid + vcpupin_lines(p.vcpu_pins@.take(i + 1)));
        i = i + 1;
    }
    assert(p.vcpu_pins@.take(p.vcpu_pins.len() as int) =~= p.vcpu_pins@);
    let ghost after_pins = out@;
    if p.emulator_pins.len() > 0 {
        push_str(out, "    <emulatorpin cpuset='");
        push_join_dec(out, &p.emulator_pins);
        push_str(out, "'/>\n");
    }
    let ghost after_emu = out@;
    if p.iothread_pins.len() > 0 {
        push_str(out, "    <iothreadpin iothread='1' cpuset='");
        push_join_dec(out, &p.iothread_pins);
        push_str(out, "'/>\n");
    }
    let ghost after_io = out@;
    push_str(out, "  </cputune>\n");
    assert(after_emu =~= after_pins + when(p.emulator_pins@.len() > 0,
        "    <emulatorpin cpuset='"@ + join_dec(p.emulator_pins@) + "'/>\n"@));
    assert(after_io =~= after_emu + when(p.iothread_pins@.len() > 0,
        "    <iothreadpin iothread='1' cpuset='"@ + join_dec(p.iothread_pins@) + "'/>\n"@));
    assert(out@ =~= start + cputune_xml(*p));
}

fn push_memory_backing(out: &mut String, c: &VmConfig)
    ensures
        final(out)@ == old(out)@ + memory_backing_xml(*c),
{
    push_str(out, "  <memoryBacking>\n");
    let ghost mid = out@;
    if c.use_hugepages {
        match c.hugepage_size_kb {
            Some(sz) => {
                push_str(out, "    <hugepages><page size='");
                push_decimal(out, sz);
                push_str(out, "' unit='KiB'/></hugepages>\n");
            },
            None => {
                push_str(out, "    <hugepages/>\n");
            },
        }
    }
    assert(out@ =~= mid + when(c.use_hugepages, match c.hugepage_size_kb {
        Some(sz) => "    <hugepages><page size='"@ + dec(sz as nat) + "' unit='KiB'/></hugepages>\n"@,
        None => "    <hugepages/>\n"@,
    }));
    push_str(out, "    <source type='memfd'/>\n");
    push_str(out, "    <access mode='shared'/>\n");
    push_str(out, "  </memoryBacking>\n");
    assert(out@ == old(out)@ + memory_backing_xml(*c));
}

fn push_os(out: &mut String, c: &VmConfig)
    ensures
        final(out)@ == old(out)@ + os_xml(*c),
{
    push_str(out, "  <os firmware='efi'>\n");
    push_str(out, "    <type arch='x86_64' machine='q35'>hvm</type>\n");
    push_str(out, "    <firmware>\n");
    push_str(out, "      <feature enabled='yes' name='secure-boot'/>\n");
    push_str(out, "      <feature enabled='yes' name='enrolled-keys'/>\n");
    push_str(out, "    </firmware>\n");
    let ghost a = out@;
    match &c.ovmf_code {
        Some(code) => {
            push_str(out, "    <loader readonly='yes' type='pflash'>");
            push_str(out, code.as_str());
            push_str(out, "</loader>\n");
        },
        None => {},
    }
    let ghost b = out@;
    match &c.ovmf_vars {
        Some(vars) => {
            push_str(out, "    <nvram template='");
            push_str(out, vars.as_str());
            push_str(out, "'>");
            push_str(out, "/var/lib/libvirt/qemu/nvram/");
            push_str(out, c.name.as_str());
            push_str(out, "_VARS.fd");
            push_str(out, "</nvram>\n");
        },
        None => {},
    }
    let ghost d = out@;
    push_str(out, "    <boot dev='hd'/>\n");
    push_str(out, "    <boot dev='cdrom'/>\n");
    push_str(out, "  </os>\n");
    assert(b =~= a + match c.ovmf_code {
        Some(code) => "    <loader readonly='yes' type='pflash'>"@ + code@ + "</loader>\n"@,
        None => Seq::empty(),
    });
    assert(d =~= b + match c.ovmf_vars {
        Some(vars) => "    <nvram template='"@ + vars@ + "'>"@
            + "/var/lib/libvirt/qemu/nvram/"@ + c.name@ + "_VARS.fd"@ + "</nvram>\n"@,
        None => Seq::empty(),
    });
    assert(out@ == old(out)@ + os_xml(*c));
}

fn push_when(out: &mut String, b: bool, s: &str)
    ensures
        final(out)@ == old(out)@ + when(b, s@),
{
    if b {
        push_str(out, s);
    }
    assert(out@ == old(out)@ + when(b, s@));
}

fn push_hyperv(out: &mut String, h: &HyperVEnlightenments)
    ensures
        final(out)@ == old(out)@ + hyperv_xml(*h),
{
    push_str(out, "    <hyperv mode='custom'>\n");
    push_when(out, h.relaxed, "      <relaxed state='on'/>\n");
    push_when(out, h.vapic, "      <vapic state='on'/>\n");
    push_str(out, "      <spinlocks state='on' retries='");
    push_decimal(out, h.spinlocks_retries as u64);
    push_str(out, "'/>\n");
    push_when(out, h.vpindex, "      <vpindex state='on'/>\n");
    push_when(out, h.runtime, "      <runtime state='on'/>\n");
    push_when(out, h.synic, "      <synic state='on'/>\n");
    if h.stimer_direct {
        push_str(out, "      <stimer state='on'>\n        <direct state='on'/>\n      </stimer>\n");
    } else {
        push_str(out, "      <stimer state='on'/>\n");
    }
    push_when(out, h.reset, "      <reset state='on'/>\n");
    push_when(out, h.frequencies, "      <frequencies state='on'/>\n");
    push_when(out, h.reenlightenment, "      <reenlightenment state='on'/>\n");
    push_when(out, h.tlbflush, "      <tlbflush state='on'/>\n");
    push_when(out, h.ipi, "      <ipi state='on'/>\n");
    push_when(out, h.evmcs, "      <evmcs state='on'/>\n");
    push_when(out, h.avic, "      <avic state='on'/>\n");
    push_str(out, "    </hyperv>\n");
    assert(out@ == old(out)@ + hyperv_xml(*h));
}

fn push_features(out: &mut String, h: &HyperVEnlightenments)
    ensures
        final(out)@ == old(out)@ + features_xml(*h),
{
    push_str(out, "  <features>\n");
    push_str(out, "    <acpi/>\n");
    push_str(out, "    <apic/>\n");
    push_hyperv(out, h);
    push_str(out, "    <kvm>\n      <hidden state='on'/>\n    </kvm>\n");
    push_str(out, "    <ioapic driver='kvm'/>\n");
    push_str(out, "  </features>\n");
    assert(out@ == old(out)@ + features_xml(*h));
}

fn push_cpu(out: &mut String, c: &VmConfig, is_amd: bool)
    ensures
        final(out)@ == old(out)@ + cpu_xml(*c, is_amd),
{
    push_str(out, "  <cpu mode='host-passthrough' check='none' migratable='off'>\n");
    push_str(out, "    <topology sockets='");
    push_decimal(out, c.sockets as u64);
    push_str(out, "' dies='1' cores='");
    push_decimal(out, c.cores_per_socket as u64);
    push_str(out, "' threads='");
    push_decimal(out, c.threads_per_core as u64);
    push_str(out, "'/>\n");
    push_str(out, "    <feature policy='require' name='invtsc'/>\n");
    push_str(out, "    <feature policy='require' name='tsc-deadline'/>\n");
    push_when(out, is_amd, "    <feature policy='require' name='topoext'/>\n");
    push_str(out, "  </cpu>\n");
    assert(out@ == old(out)@ + cpu_xml(*c, is_amd));
}

fn push_clock(out: &mut String, t: &ClockTimers)
    ensures
        final(out)@ == old(out)@ + clock_xml(*t),
{
    push_str(out, "  <clock offset='localtime'>\n");
    push_when(out, t.rtc_catchup, "    <timer name='rtc' tickpolicy='catchup'/>\n");
    push_when(out, t.pit_discard, "    <timer name='pit' tickpolicy='discard'/>\n");
    push_when(out, t.hpet_disabled, "    <timer name='hpet' present='no'/>\n");
    push_when(out, t.kvmclock_disabled, "    <timer name='kvmclock' present='no'/>\n");
    push_when(out, t.hypervclock_enabled, "    <timer name='hypervclock' present='yes'/>\n");
    push_when(out, t.tsc_native, "    <timer name='tsc' present='yes' mode='native'/>\n");
    push_str(out, "  </clock>\n");
    assert(out@ == old(out)@ + clock_xml(*t));
}

fn push_storage(out: &mut String, c: &VmConfig)
    ensures
        final(out)@ == old(out)@ + storage_xml(*c),
{
    push_str(out, "  <devices>\n");
    push_str(out, "    <emulator>/usr/bin/qemu-system-x86_64</emulator>\n");
    push_str(out, "    <controller type='scsi' model='virtio-scsi' index='0'>\n      <driver iothread='1' queues='");
    push_decimal(out, c.disk.queues as u64);
    push_str(out, "'/>\n    </controller>\n");
    push_str(out, "    <disk type='file' device='disk'>\n      <driver name='qemu' type='");
    push_str(out, c.disk.format.as_str());
    push_str(out, "' cache='");
    push_str(out, c.disk.cache.as_str());
    push_str(out, "' io='");
    push_str(out, c.disk.io_engine.as_str());
    push_str(out, "' ");
    if c.disk.discard_unmap {
        push_str(out, "discard='unmap' detect_zeroes='unmap'");
    } else {
        push_str(out, "");
    }
    push_str(out, "/>\n      <source file='");
    push_str(out, c.disk.path.as_str());
    push_str(out, "'/>\n      <target dev='sda' bus='scsi'/>\n      <address type='drive' controller='0' bus='0' target='0' unit='0'/>\n    </disk>\n");
    let ghost a = out@;
    match &c.unattended.driver_disk_path {
        Some(drv) => {
            push_str(out, "    <disk type='file' device='cdrom'>\n      <driver name='qemu' type='raw'/>\n      <source file='");
            push_str(out, drv.as_str());
            push_str(out, "'/>\n      <target dev='sdb' bus='scsi'/>\n      <readonly/>\n      <address type='drive' controller='0' bus='0' target='0' unit='1'/>\n    </disk>\n");
        },
        None => {},
    }
    let ghost b = out@;
    push_str(out, "    <disk type='file' device='cdrom'>\n      <driver name='qemu' type='raw'/>\n      <source file='");
    push_str(out, c.win11_iso_path.as_str());
    push_str(out, "'/>\n      <target dev='sdc' bus='scsi'/>\n      <readonly/>\n      <address type='drive' controller='0' bus='0' target='0' unit='2'/>\n    </disk>\n");
    assert(b =~= a + match c.unattended.driver_disk_path {
        Some(drv) => "    <disk type='file' device='cdrom'>\n      <driver name='qemu' type='raw'/>\n      <source file='"@
            + drv@
            + "'/>\n      <target dev='sdb' bus='scsi'/>\n      <readonly/>\n      <address type='drive' controller='0' bus='0' target='0' unit='1'/>\n    </disk>\n"@,
        None => Seq::empty(),
    });
    assert(out@ == old(out)@ + storage_xml(*c));
}

fn push_peripherals(out: &mut String, c: &VmConfig)
    ensures
        final(out)@ == old(out)@ + peripherals_xml(*c),
{
    push_str(out, "    <tpm model='tpm-crb'>\n      <backend type='emulator' version='2.0'/>\n    </tpm>\n");
    push_str(out, "    <interface type='network'>\n      <source network='default'/>\n      <model type='virtio'/>\n    </interface>\n");
    push_str(out, "    <sound model='ich9'>\n      <audio id='1'/>\n    </sound>\n");
    push_str(out, "    <audio id='1' type='pipewire'/>\n");
    let ghost a = out@;
    match &c.shared_directory {
        Some(dir) => {
            push_str(out, "    <filesystem type='mount' accessmode='passthrough'>\n      <driver type='virtiofs' queue='1024'/>\n      <binary path='/usr/libexec/virtiofsd' xattr='on'/>\n      <source dir='");
            push_str(out, dir.as_str());
            push_str(out, "'/>\n      <target dir='clerestory_share'/>\n    </filesystem>\n");
        },
        None => {},
    }
    assert(out@ =~= a + match c.shared_directory {
        Some(dir) => "    <filesystem type='mount' accessmode='passthrough'>\n      <driver type='virtiofs' queue='1024'/>\n      <binary path='/usr/libexec/virtiofsd' xattr='on'/>\n      <source dir='"@
            + dir@ + "'/>\n      <target dir='clerestory_share'/>\n    </filesystem>\n"@,
        None => Seq::empty(),
    });
    assert(out@ == old(out)@ + peripherals_xml(*c));
}

/// Splits a PCI address into its (domain, bus, slot, function) fields.
pub fn parse_pci_address(addr: &str) -> (r: Option<(Vec<char>, Vec<char>, Vec<char>, Vec<char>)>)
    ensures
        match (r, pci_fields(addr@)) {
            (Some(v), Some(f)) => v.0@ == f.0 && v.1@ == f.1 && v.2@ == f.2 && v.3@ == f.3,
            (None, None) => true,
            _ => false,
        },
{
    let chars = chars_of(addr);
    let parts = split_chars(&chars, ':');
    assert(views(parts@).len() == parts@.len());
    if parts.len() >= 2 {
        let tail = if parts.len() > 2 {
            let t = copy_chars(&parts[2]);
            assert(t@ == views(parts@)[2]);
            t
        } else {
            chars_of("00.0")
        };
        let sf = split_chars(&tail, '.');
        proof {
            lemma_split_on_nonempty(tail@, '.');
        }
        assert(views(sf@).len() == sf@.len());
        let function = if sf.len() > 1 { copy_chars(&sf[1]) } else { chars_of("0") };
        let d = copy_chars(&parts[0]);
        let b = copy_chars(&parts[1]);
        let s = copy_chars(&sf[0]);
        assert(views(parts@)[0] == parts@[0]@);
        assert(views(parts@)[1] == parts@[1]@);
        assert(views(sf@)[0] == sf@[0]@);
        assert(sf.len() > 1 ==> views(sf@)[1] == sf@[1]@);
        Some((d, b, s, function))
    } else {
        None
    }
}

/// A fresh copy of a character vector.
pub fn copy_chars(v: &Vec<char>) -> (r: Vec<char>)
    ensures
        r@ == v@,
{
    let mut r: Vec<char> = Vec::new();
    let mut i: usize = 0;
    while i < v.len()
        invariant
            i <= v.len(),
            r@ == v@.take(i as int),
        decreases v.len() - i,
    {
        r.push(v[i]);
        assert(v@.take(i + 1) =~= v@.take(i as int).push(v@[i as int]));
        i = i + 1;
    }
    assert(v@.take(v.len() as int) =~= v@);
    r
}

fn push_gpu(out: &mut String, g: &GpuMode)
    ensures
        final(out)@ == old(out)@ + gpu_xml(*g),
{
    match g {
        GpuMode::SpiceVirtio => {
            push_str(out, "    <graphics type='spice' autoport='yes'>\n      <listen type='address'/>\n      <image compression='off'/>\n      <gl enable='no'/>\n    </graphics>\n");
            push_str(out, "    <video>\n      <model type='qxl' ram='65536' vram='65536' vgamem='16384' heads='1' primary='yes'/>\n    </video>\n");
        },
        GpuMode::LookingGlass { shm_size_mb } => {
            push_str(out, "    <shmem name='looking-glass'>\n      <model type='ivshmem-plain'/>\n      <size unit='M'>");
            push_decimal(out, *shm_size_mb as u64);
            push_str(out, "</size>\n    </shmem>\n");
            push_str(out, "    <graphics type='spice' autoport='yes'>\n      <listen type='address'/>\n    </graphics>\n");
            push_str(out, "    <video>\n      <model type='qxl' ram='65536' vram='65536' heads='1' primary='yes'/>\n    </video>\n");
        },
        GpuMode::VfioPassthrough { pci_address } => {
            match parse_pci_address(pci_address.as_str()) {
                Some((d, b, s, f)) => {
                    push_str(out, "    <hostdev mode='subsystem' type='pci' managed='yes'>\n      <source>\n        <address domain='0x");
                    push_chars(out, &d);
                    push_str(out, "' bus='0x");
                    push_chars(out, &b);
                    push_str(out, "' slot='0x");
                    push_chars(out, &s);
                    push_str(out, "' function='0x");
                    push_chars(out, &f);
                    push_str(out, "'/>\n      </source>\n    </hostdev>\n");
                },
                None => {},
            }
        },
    }
    assert(out@ == old(out)@ + gpu_xml(*g));
}

pub struct LibvirtXmlSynthesizer;

impl LibvirtXmlSynthesizer {
    /// Compiles a fully tuned Libvirt Domain XML.
    ///
    /// Always succeeds; the document is exactly `libvirt_xml(config, is_amd)`.
    pub fn synthesize(config: &VmConfig, is_amd: bool) -> (r: Result<String>)
        requires
            config.pinning is Some || topology_fits(*config),
        ensures
            r matches Ok(xml) && xml@ == libvirt_xml(*config, is_amd),
    {
        let mut xml = String::new();
        push_header(&mut xml, config);
        let ghost a = xml@;
        match &config.pinning {
            Some(p) => push_cputune(&mut xml, p),
            None => {},
        }
        assert(xml@ =~= a + match config.pinning { Some(p) => cputune_xml(p), None => Seq::empty() });
        push_memory_backing(&mut xml, config);
        push_os(&mut xml, config);
        push_features(&mut xml, &config.hyperv);
        push_cpu(&mut xml, config, is_amd);
        push_clock(&mut xml, &config.clocks);
        push_storage(&mut xml, config);
        push_peripherals(&mut xml, config);
        push_gpu(&mut xml, &config.gpu);
        push_str(&mut xml, "    <channel type='unix'>\n      <target type='virtio' name='org.qemu.guest_agent.0'/>\n    </channel>\n");
        push_str(&mut xml, "  </devices>\n");
        push_str(&mut xml, "</domain>\n");
        assert(xml@ == libvirt_xml(*config, is_amd));
        Ok(xml)
    }
}


/// The `<topology>` element the domain declares: the socket count, one die,
/// `cores_per_socket` cores and `threads_per_core` threads, each as its decimal.
pub open spec fn topology_element(sockets: u32, cores: u32, threads: u32) -> Seq<char> {
    "    <topology sockets='"@ + dec(sockets as nat) + "' dies='1' cores='"@ + dec(cores as nat)
        + "' threads='"@ + dec(threads as nat) + "'/>\n"@
}

/// The `<cpu>` section holds the topology element.
proof fn lemma_cpu_topology(c: VmConfig, is_amd: bool)
    ensures
        has_substring(cpu_xml(c, is_amd), topology_element(c.sockets, c.cores_per_socket, c.threads_per_core)),
{
    let a = "  <cpu mode='host-passthrough' check='none' migratable='off'>\n"@;
    let t1 = "    <topology sockets='"@;
    let d1 = dec(c.sockets as nat);
    let t2 = "' dies='1' cores='"@;
    let d2 = dec(c.cores_per_socket as nat);
    let t3 = "' threads='"@;
    let d3 = dec(c.threads_per_core as nat);
    let t4 = "'/>\n"@;
    let t = topology_element(c.sockets, c.cores_per_socket, c.threads_per_core);
    assert(t == t1 + d1 + t2 + d2 + t3 + d3 + t4);
    crate::text::lemma_add_assoc(a, t1, d1);
    crate::text::lemma_add_assoc(a, t1 + d1, t2);
    crate::text::lemma_add_assoc(a, t1 + d1 + t2, d2);
    crate::text::lemma_add_assoc(a, t1 + d1 + t2 + d2, t3);
    crate::text::lemma_add_assoc(a, t1 + d1 + t2 + d2 + t3, d3);
    crate::text::lemma_add_assoc(a, t1 + d1 + t2 + d2 + t3 + d3, t4);
    assert(a + t == a + t1 + d1 + t2 + d2 + t3 + d3 + t4);
    lemma_substring_self(t);
    lemma_substring_extend(t, a, t);
    let f1 = "    <feature policy='require' name='invtsc'/>\n"@;
    let f2 = "    <feature policy='require' name='tsc-deadline'/>\n"@;
    let f3 = when(is_amd, "    <feature policy='require' name='topoext'/>\n"@);
    let f4 = "  </cpu>\n"@;
    lemma_substring_extend(a + t, f1, t);
    lemma_substring_extend(a + t + f1, f2, t);
    lemma_substring_extend(a + t + f1 + f2, f3, t);
    lemma_substring_extend(a + t + f1 + f2 + f3, f4, t);
    assert(cpu_xml(c, is_amd) == a + t + f1 + f2 + f3 + f4);
}

/// An occurrence in a part of a left-nested concatenation is one in the whole.
proof fn lemma_in_parts(
    w: Seq<char>,
    m: Seq<char>,
    r1: Seq<char>,
    r2: Seq<char>,
    r3: Seq<char>,
    r4: Seq<char>,
    r5: Seq<char>,
    p: Seq<char>,
)
    requires
        has_substring(m, p),
    ensures
        has_substring(w + m + r1 + r2 + r3 + r4 + r5, p),
{
    lemma_substring_extend(m, w, p);
    lemma_substring_extend(w + m, r1, p);
    lemma_substring_extend(w + m + r1, r2, p);
    lemma_substring_extend(w + m + r1 + r2, r3, p);
    lemma_substring_extend(w + m + r1 + r2 + r3, r4, p);
    lemma_substring_extend(w + m + r1 + r2 + r3 + r4, r5, p);
}

/// The domain XML declares the configured CPU topology: its `<topology>`
/// element names the configuration's sockets, cores per socket and threads
/// per core, in those attributes.
pub proof fn law_topology_element(c: VmConfig, is_amd: bool)
    ensures
        has_substring(libvirt_xml(c, is_amd), topology_element(c.sockets, c.cores_per_socket, c.threads_per_core)),
{
    lemma_cpu_topology(c, is_amd);
    let w = header_xml(c)
        + match c.pinning { Some(p) => cputune_xml(p), None => Seq::empty() }
        + memory_backing_xml(c)
        + os_xml(c)
        + features_xml(c.hyperv);
    lemma_in_parts(w, cpu_xml(c, is_amd), clock_xml(c.clocks), storage_xml(c), peripherals_xml(c),
        gpu_xml(c.gpu), tail_xml(), topology_element(c.sockets, c.cores_per_socket, c.threads_per_core));
}

/// The header declares the vCPU count.
proof fn lemma_header_vcpus(c: VmConfig)
    ensures
        has_substring(header_xml(c), "  <vcpu placement='static'>"@ + dec(total_vcpus(c) as nat) + "</vcpu>\n"@),
{
    let n = dec(total_vcpus(c) as nat);
    let v1 = "  <vcpu placement='static'>"@;
    let v2 = "</vcpu>\n"@;
    let v = v1 + n + v2;
    let a = "<domain type='kvm'>\n"@
        + "  <name>"@ + c.name@ + "</name>\n"@
        + "  <memory unit='MiB'>"@ + dec(c.memory_mb as nat) + "</memory>\n"@
        + "  <currentMemory unit='MiB'>"@ + dec(c.memory_mb as nat) + "</currentMemory>\n"@;
    let b = "  <iothreads>1</iothreads>\n"@;
    crate::text::lemma_add_assoc(a, v1, n);
    crate::text::lemma_add_assoc(a, v1 + n, v2);
    assert(header_xml(c) == a + v1 + n + v2 + b);
    lemma_substring_self(v);
    lemma_substring_extend(v, a, v);
    lemma_substring_extend(a + v, b, v);
}

/// Without a pinning map the domain declares sockets × cores × threads vCPUs.
pub proof fn law_unpinned_vcpu_count(c: VmConfig, is_amd: bool)
    requires
        c.pinning is None,
        topology_fits(c),
    ensures
        has_substring(libvirt_xml(c, is_amd),
            "  <vcpu placement='static'>"@ + dec((c.sockets * c.cores_per_socket * c.threads_per_core) as nat) + "</vcpu>\n"@),
{
    let v = "  <vcpu placement='static'>"@ + dec((c.sockets * c.cores_per_socket * c.threads_per_core) as nat) + "</vcpu>\n"@;
    assert(total_vcpus(c) as nat == (c.sockets * c.cores_per_socket * c.threads_per_core) as nat);
    lemma_header_vcpus(c);
    let cp = match c.pinning { Some(p) => cputune_xml(p), None => Seq::empty() };
    lemma_in_parts(Seq::empty(), header_xml(c), cp, memory_backing_xml(c), os_xml(c), features_xml(c.hyperv),
        cpu_xml(c, is_amd), v);
    let y = Seq::<char>::empty() + header_xml(c) + cp + memory_backing_xml(c) + os_xml(c) + features_xml(c.hyperv) + cpu_xml(c, is_amd);
    assert(Seq::<char>::empty() + header_xml(c) == header_xml(c));
    lemma_in_parts(Seq::empty(), y, clock_xml(c.clocks), storage_xml(c), peripherals_xml(c), gpu_xml(c.gpu), tail_xml(), v);
    assert(Seq::<char>::empty() + y == y);
}

} // verus!
