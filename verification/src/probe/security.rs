//! Hardware virtualization, swtpm TPM 2.0 and OVMF Secure Boot firmware selection.
//!
//! Whether a file exists is for the caller to find out; these functions pick
//! from the known locations given which of them are present.

use crate::model::host::SecurityPrerequisites;
use crate::text::{chars_of, eq_str, string_from, trim, trim_chars};
use vstd::prelude::*;

verus! {

/// The places where the swtpm binary is looked for, in order.
pub open spec fn swtpm_candidate(i: int) -> Seq<char> {
    if i == 0 {
        "/usr/bin/swtpm"@
    } else if i == 1 {
        "/usr/local/bin/swtpm"@
    } else {
        "/bin/swtpm"@
    }
}

/// The swtpm locations, in the order they are tried.
pub fn swtpm_candidates() -> (v: Vec<String>)
    ensures
        v@.len() == 3,
        forall|i: int| 0 <= i < 3 ==> (#[trigger] v@[i])@ == swtpm_candidate(i),
{
    let mut v: Vec<String> = Vec::new();
    v.push(string_from("/usr/bin/swtpm"));
    v.push(string_from("/usr/local/bin/swtpm"));
    v.push(string_from("/bin/swtpm"));
    v
}

/// The first swtpm location that is present, if any.
pub fn select_swtpm(present: &Vec<bool>) -> (r: Option<String>)
    requires
        present@.len() == 3,
    ensures
        match r {
            Some(p) => exists|i: int| 0 <= i < 3 && #[trigger] present@[i]
                && (forall|j: int| 0 <= j < i ==> !present@[j]) && p@ == swtpm_candidate(i),
            None => forall|i: int| 0 <= i < 3 ==> !present@[i],
        },
{
    let c = swtpm_candidates();
    let mut i: usize = 0;
    while i < 3
        invariant
            i <= 3,
            present@.len() == 3,
            c@.len() == 3,
            forall|q: int| 0 <= q < 3 ==> (#[trigger] c@[q])@ == swtpm_candidate(q),
            forall|j: int| 0 <= j < i ==> !present@[j],
        decreases 3 - i,
    {
        if present[i] {
            let p = string_from(c[i].as_str());
            assert(p@ == swtpm_candidate(i as int));
            return Some(p);
        }
        i = i + 1;
    }
    None
}

/// The (code, variables) firmware image pairs looked for, in order: Fedora /
/// RHEL, Debian / Ubuntu, then Arch Linux layouts.
pub open spec fn ovmf_pair(i: int) -> (Seq<char>, Seq<char>) {
    if i == 0 {
        ("/usr/share/edk2/ovmf/OVMF_CODE.secboot.fd"@, "/usr/share/edk2/ovmf/OVMF_VARS.secboot.fd"@)
    } else if i == 1 {
        ("/usr/share/edk2/ovmf/OVMF_CODE.fd"@, "/usr/share/edk2/ovmf/OVMF_VARS.fd"@)
    } else if i == 2 {
        ("/usr/share/OVMF/OVMF_CODE_4M.ms.fd"@, "/usr/share/OVMF/OVMF_VARS_4M.ms.fd"@)
    } else if i == 3 {
        ("/usr/share/OVMF/OVMF_CODE_4M.secboot.fd"@, "/usr/share/OVMF/OVMF_VARS_4M.secboot.fd"@)
    } else if i == 4 {
        ("/usr/share/OVMF/OVMF_CODE.fd"@, "/usr/share/OVMF/OVMF_VARS.fd"@)
    } else if i == 5 {
        ("/usr/share/edk2/x64/OVMF_CODE.secboot.4m.fd"@, "/usr/share/edk2/x64/OVMF_VARS.4m.fd"@)
    } else {
        ("/usr/share/edk2/x64/OVMF_CODE.4m.fd"@, "/usr/share/edk2/x64/OVMF_VARS.4m.fd"@)
    }
}

/// The firmware pairs, in the order they are tried.
pub fn ovmf_candidates() -> (v: Vec<(String, String)>)
    ensures
        v@.len() == 7,
        forall|i: int| 0 <= i < 7 ==> (#[trigger] v@[i]).0@ == ovmf_pair(i).0 && v@[i].1@ == ovmf_pair(i).1,
{
    let mut v: Vec<(String, String)> = Vec::new();
    v.push((string_from("/usr/share/edk2/ovmf/OVMF_CODE.secboot.fd"), string_from("/usr/share/edk2/ovmf/OVMF_VARS.secboot.fd")));
    v.push((string_from("/usr/share/edk2/ovmf/OVMF_CODE.fd"), string_from("/usr/share/edk2/ovmf/OVMF_VARS.fd")));
    v.push((string_from("/usr/share/OVMF/OVMF_CODE_4M.ms.fd"), string_from("/usr/share/OVMF/OVMF_VARS_4M.ms.fd")));
    v.push((string_from("/usr/share/OVMF/OVMF_CODE_4M.secboot.fd"), string_from("/usr/share/OVMF/OVMF_VARS_4M.secboot.fd")));
    v.push((string_from("/usr/share/OVMF/OVMF_CODE.fd"), string_from("/usr/share/OVMF/OVMF_VARS.fd")));
    v.push((string_from("/usr/share/edk2/x64/OVMF_CODE.secboot.4m.fd"), string_from("/usr/share/edk2/x64/OVMF_VARS.4m.fd")));
    v.push((string_from("/usr/share/edk2/x64/OVMF_CODE.4m.fd"), string_from("/usr/share/edk2/x64/OVMF_VARS.4m.fd")));
    v
}

/// The first firmware pair whose two images are both present; the Fedora
/// Secure Boot pair when none is.
pub fn select_ovmf(present: &Vec<bool>) -> (r: (String, String))
    requires
        present@.len() == 7,
    ensures
        (exists|i: int| 0 <= i < 7 && (#[trigger] present@[i])
            && (forall|j: int| 0 <= j < i ==> !present@[j])
            && r.0@ == ovmf_pair(i).0 && r.1@ == ovmf_pair(i).1)
        || ((forall|i: int| 0 <= i < 7 ==> !present@[i]) && r.0@ == ovmf_pair(0).0 && r.1@ == ovmf_pair(0).1),
{
    let c = ovmf_candidates();
    let mut i: usize = 0;
    while i < 7
        invariant
            i <= 7,
            present@.len() == 7,
            c@.len() == 7,
            forall|q: int| 0 <= q < 7 ==> (#[trigger] c@[q]).0@ == ovmf_pair(q).0 && c@[q].1@ == ovmf_pair(q).1,
            forall|j: int| 0 <= j < i ==> !present@[j],
        decreases 7 - i,
    {
        if present[i] {
            let code = string_from(c[i].0.as_str());
            let vars = string_from(c[i].1.as_str());
            assert(present@[i as int]);
            return (code, vars);
        }
        i = i + 1;
    }
    (string_from(c[0].0.as_str()), string_from(c[0].1.as_str()))
}

/// A kvm module "nested" parameter that reads as enabled: "1", "Y" or "y".
pub open spec fn nested_on(val: Seq<char>) -> bool {
    trim(val) == "1"@ || trim(val) == "Y"@ || trim(val) == "y"@
}

/// Whether a "nested" parameter value enables nested virtualization.
pub fn nested_enabled(val: &str) -> (b: bool)
    ensures
        b == nested_on(val@),
{
    let v = chars_of(val);
    let t = trim_chars(&v);
    eq_str(&t, "1") || eq_str(&t, "Y") || eq_str(&t, "y")
}

/// Nested virtualization as the kvm_amd parameter reports it, or else as the
/// kvm_intel one does; off when neither can be read.
pub open spec fn nested_support(amd: Option<String>, intel: Option<String>) -> bool {
    match amd {
        Some(a) => nested_on(a@),
        None => match intel {
            Some(i) => nested_on(i@),
            None => false,
        },
    }
}

/// Whether nested virtualization is on, from the kvm_amd and kvm_intel "nested"
/// parameters (each `None` where it could not be read).
pub fn check_nested_virt(amd: &Option<String>, intel: &Option<String>) -> (b: bool)
    ensures
        b == nested_support(*amd, *intel),
{
    match amd {
        Some(a) => nested_enabled(a.as_str()),
        None => match intel {
            Some(i) => nested_enabled(i.as_str()),
            None => false,
        },
    }
}

/// The security prerequisites, from whether /dev/kvm exists, which swtpm
/// locations and which firmware pairs are present, and the nested parameters.
pub fn security_prerequisites(
    has_kvm_device: bool,
    swtpm_present: &Vec<bool>,
    ovmf_present: &Vec<bool>,
    amd_nested: &Option<String>,
    intel_nested: &Option<String>,
) -> (r: SecurityPrerequisites)
    requires
        swtpm_present@.len() == 3,
        ovmf_present@.len() == 7,
    ensures
        r.has_kvm_device == has_kvm_device,
        match r.swtpm_bin {
            Some(p) => exists|i: int| 0 <= i < 3 && #[trigger] swtpm_present@[i]
                && (forall|j: int| 0 <= j < i ==> !swtpm_present@[j]) && p@ == swtpm_candidate(i),
            None => forall|i: int| 0 <= i < 3 ==> !swtpm_present@[i],
        },
        r.ovmf_code_fd is Some && r.ovmf_vars_fd is Some,
        (exists|i: int| 0 <= i < 7 && (#[trigger] ovmf_present@[i])
            && (forall|j: int| 0 <= j < i ==> !ovmf_present@[j])
            && r.ovmf_code_fd->0@ == ovmf_pair(i).0 && r.ovmf_vars_fd->0@ == ovmf_pair(i).1)
        || ((forall|i: int| 0 <= i < 7 ==> !ovmf_present@[i])
            && r.ovmf_code_fd->0@ == ovmf_pair(0).0 && r.ovmf_vars_fd->0@ == ovmf_pair(0).1),
        r.supports_nested == nested_support(*amd_nested, *intel_nested),
{
    let swtpm_bin = select_swtpm(swtpm_present);
    let (code, vars) = select_ovmf(ovmf_present);
    SecurityPrerequisites {
        has_kvm_device,
        swtpm_bin,
        ovmf_code_fd: Some(code),
        ovmf_vars_fd: Some(vars),
        supports_nested: check_nested_virt(amd_nested, intel_nested),
    }
}

} // verus!
