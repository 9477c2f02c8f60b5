//! Confidential VM detection.
//!
//! Detection is only implemented for x86_64. [`is_confidential_vm`] works on
//! what is known of the processor so far and names what it has to know next.

use crate::bytes::{le_bytes, push_le, same_bytes};
use vstd::prelude::*;
use vstd::utf8::*;

verus! {

pub const CPUID_PROCESSOR_INFO_AND_FEATURE_BITS: u32 = 0x1;

pub const CPUID_FEATURE_HYPERVISOR: u32 = 0x8000_0000;

pub const CPUID_GET_HIGHEST_FUNCTION: u32 = 0x8000_0000;

pub const CPUID_AMD_GET_ENCRYPTED_MEMORY_CAPABILITIES: u32 = 0x8000_001f;

pub const EAX_SEV: u32 = 0x2;

/// The status register that [`CpuProbe::SevStatus`] asks for.
pub const MSR_AMD64_SEV: u32 = 0xc001_0131;

/// The bits for SEV, SEV-ES and SEV-SNP.
pub const MSR_SEV_ANY: u64 = 0x7;

pub const CPUID_INTEL_TDX_ENUMERATION: u32 = 0x21;

pub const CPUID_HYPERV_VENDOR_AND_MAX_FUNCTIONS: u32 = 0x4000_0000;

pub const CPUID_HYPERV_FEATURES: u32 = 0x4000_0003;

pub const CPUID_HYPERV_ISOLATION_CONFIG: u32 = 0x4000_000c;

pub const CPUID_HYPERV_MIN: u32 = 0x4000_0005;

pub const CPUID_HYPERV_MAX: u32 = 0x4000_ffff;

pub const CPUID_HYPERV_CPU_MANAGEMENT: u32 = 0x1000;

pub const CPUID_HYPERV_ISOLATION: u32 = 0x40_0000;

pub const CPUID_HYPERV_ISOLATION_TYPE_MASK: u32 = 0xf;

pub const CPUID_HYPERV_ISOLATION_TYPE_SNP: u32 = 2;

pub const CPUID_HYPERV_ISOLATION_TYPE_TDX: u32 = 3;

/// The registers that one CPUID leaf returns.
#[derive(Debug, Clone, Copy, PartialEq, Eq, Structural)]
pub struct CpuidResult {
    pub eax: u32,
    pub ebx: u32,
    pub ecx: u32,
    pub edx: u32,
}

/// Something to be found out about the processor.
#[derive(Debug, Clone, Copy, PartialEq, Eq, Structural)]
pub enum CpuProbe {
    /// What this CPUID leaf returns.
    Cpuid(u32),
    /// The contents of the SEV status register.
    SevStatus,
}

/// What is known of the processor.
#[derive(Debug)]
pub struct CpuFacts {
    leaves: Vec<(u32, CpuidResult)>,
    sev_status: Option<u64>,
}

/// What is known of the processor.
pub struct FactsModel {
    pub leaves: Map<u32, CpuidResult>,
    pub sev_status: Option<u64>,
}

/// The last entry for each leaf.
pub open spec fn leaf_map(leaves: Seq<(u32, CpuidResult)>) -> Map<u32, CpuidResult>
    decreases leaves.len(),
{
    if leaves.len() == 0 {
        Map::empty()
    } else {
        leaf_map(leaves.drop_last()).insert(leaves.last().0, leaves.last().1)
    }
}

impl View for CpuFacts {
    type V = FactsModel;

    closed spec fn view(&self) -> FactsModel {
        FactsModel { leaves: leaf_map(self.leaves@), sev_status: self.sev_status }
    }
}

impl FactsModel {
    /// What a CPUID leaf returns, if that is known.
    pub open spec fn cpuid(self, leaf: u32) -> Result<CpuidResult, CpuProbe> {
        if self.leaves.contains_key(leaf) {
            Ok(self.leaves[leaf])
        } else {
            Err(CpuProbe::Cpuid(leaf))
        }
    }

    /// Whether the answer to a probe is known.
    pub open spec fn knows(self, probe: CpuProbe) -> bool {
        match probe {
            CpuProbe::Cpuid(leaf) => self.leaves.contains_key(leaf),
            CpuProbe::SevStatus => self.sev_status is Some,
        }
    }
}

impl CpuFacts {
    /// Nothing is known.
    pub fn new() -> (facts: CpuFacts)
        ensures
            facts@.leaves == Map::<u32, CpuidResult>::empty(),
            facts@.sev_status is None,
    {
        CpuFacts { leaves: Vec::new(), sev_status: None }
    }

    /// Take note of what a CPUID leaf returns.
    pub fn record_cpuid(&mut self, leaf: u32, result: CpuidResult)
        ensures
            final(self)@.leaves == old(self)@.leaves.insert(leaf, result),
            final(self)@.sev_status == old(self)@.sev_status,
    {
        self.leaves.push((leaf, result));
        assert(self.leaves@.drop_last() == old(self).leaves@);
    }

    /// Take note of the contents of the SEV status register.
    pub fn record_sev_status(&mut self, status: u64)
        ensures
            final(self)@.leaves == old(self)@.leaves,
            final(self)@.sev_status == Some(status),
    {
        self.sev_status = Some(status);
    }

    /// What a CPUID leaf returns, or the probe for it.
    fn cpuid(&self, leaf: u32) -> (result: Result<CpuidResult, CpuProbe>)
        ensures
            result == self@.cpuid(leaf),
    {
        let mut i: usize = self.leaves.len();
        assert(self.leaves@.take(i as int) == self.leaves@);
        while i > 0
            invariant
                i <= self.leaves@.len(),
                leaf_map(self.leaves@.take(i as int)).contains_key(leaf) <==> leaf_map(
                    self.leaves@,
                ).contains_key(leaf),
                leaf_map(self.leaves@.take(i as int)).contains_key(leaf) ==> leaf_map(
                    self.leaves@.take(i as int),
                )[leaf] == leaf_map(self.leaves@)[leaf],
            decreases i,
        {
            assert(self.leaves@.take(i as int).drop_last() == self.leaves@.take(i - 1));
            i = i - 1;
            if self.leaves[i].0 == leaf {
                return Ok(self.leaves[i].1);
            }
        }
        Err(CpuProbe::Cpuid(leaf))
    }
}

/// A vendor signature in EBX, EDX, ECX order, as used by the processor vendor
/// string.
pub open spec fn signature_swapped(result: CpuidResult) -> Seq<u8> {
    le_bytes(result.ebx as nat, 4) + le_bytes(result.edx as nat, 4) + le_bytes(
        result.ecx as nat,
        4,
    )
}

/// A vendor signature in EBX, ECX, EDX order, as used by the Hyper-V vendor
/// string.
pub open spec fn signature(result: CpuidResult) -> Seq<u8> {
    le_bytes(result.ebx as nat, 4) + le_bytes(result.ecx as nat, 4) + le_bytes(
        result.edx as nat,
        4,
    )
}

/// A vendor signature in EBX, EDX, ECX order.
pub fn cpuid_signature_swapped(result: CpuidResult) -> (sig: Vec<u8>)
    ensures
        sig@ == signature_swapped(result),
{
    let mut sig: Vec<u8> = Vec::new();
    push_le(&mut sig, result.ebx as u64, 4);
    push_le(&mut sig, result.edx as u64, 4);
    push_le(&mut sig, result.ecx as u64, 4);
    assert(sig@ == signature_swapped(result));
    sig
}

/// A vendor signature in EBX, ECX, EDX order.
pub fn cpuid_signature(result: CpuidResult) -> (sig: Vec<u8>)
    ensures
        sig@ == signature(result),
{
    let mut sig: Vec<u8> = Vec::new();
    push_le(&mut sig, result.ebx as u64, 4);
    push_le(&mut sig, result.ecx as u64, 4);
    push_le(&mut sig, result.edx as u64, 4);
    assert(sig@ == signature(result));
    sig
}

impl FactsModel {
    /// Whether the processor is virtual.
    pub open spec fn in_hypervisor(self) -> Result<bool, CpuProbe> {
        match self.cpuid(0) {
            Ok(vendor) => if vendor.eax < CPUID_PROCESSOR_INFO_AND_FEATURE_BITS {
                Ok(false)
            } else {
                match self.cpuid(CPUID_PROCESSOR_INFO_AND_FEATURE_BITS) {
                    Ok(features) => Ok(features.ecx & CPUID_FEATURE_HYPERVISOR != 0),
                    Err(probe) => Err(probe),
                }
            },
            Err(probe) => Err(probe),
        }
    }

    /// Whether Hyper-V isolates the VM in a certain way.
    pub open spec fn hyperv_cvm(self, isolation_type: u32) -> Result<bool, CpuProbe> {
        match self.cpuid(CPUID_HYPERV_VENDOR_AND_MAX_FUNCTIONS) {
            Ok(vendor) => if !(CPUID_HYPERV_MIN <= vendor.eax <= CPUID_HYPERV_MAX) || signature(
                vendor,
            ) != encode_utf8("Microsoft Hv"@) {
                Ok(false)
            } else {
                match self.cpuid(CPUID_HYPERV_FEATURES) {
                    Ok(features) => if features.ebx & CPUID_HYPERV_ISOLATION == 0 || features.ebx
                        & CPUID_HYPERV_CPU_MANAGEMENT != 0 {
                        Ok(false)
                    } else {
                        match self.cpuid(CPUID_HYPERV_ISOLATION_CONFIG) {
                            Ok(config) => Ok(
                                config.ebx & CPUID_HYPERV_ISOLATION_TYPE_MASK == isolation_type,
                            ),
                            Err(probe) => Err(probe),
                        }
                    },
                    Err(probe) => Err(probe),
                }
            },
            Err(probe) => Err(probe),
        }
    }

    /// Whether an AMD processor runs the VM with encrypted memory.
    pub open spec fn sev(self) -> Result<bool, CpuProbe> {
        match self.cpuid(CPUID_GET_HIGHEST_FUNCTION) {
            Ok(highest) => if highest.eax < CPUID_AMD_GET_ENCRYPTED_MEMORY_CAPABILITIES {
                Ok(false)
            } else {
                match self.cpuid(CPUID_AMD_GET_ENCRYPTED_MEMORY_CAPABILITIES) {
                    Ok(capabilities) => if capabilities.eax & EAX_SEV == 0 {
                        self.hyperv_cvm(CPUID_HYPERV_ISOLATION_TYPE_SNP)
                    } else {
                        match self.sev_status {
                            Some(status) => Ok(status & MSR_SEV_ANY != 0),
                            None => Err(CpuProbe::SevStatus),
                        }
                    },
                    Err(probe) => Err(probe),
                }
            },
            Err(probe) => Err(probe),
        }
    }

    /// Whether an Intel processor runs the VM as a trust domain.
    pub open spec fn tdx(self) -> Result<bool, CpuProbe> {
        match self.cpuid(CPUID_GET_HIGHEST_FUNCTION) {
            Ok(highest) => if highest.eax < CPUID_INTEL_TDX_ENUMERATION {
                Ok(false)
            } else {
                match self.cpuid(CPUID_INTEL_TDX_ENUMERATION) {
                    Ok(tdx) => if signature_swapped(tdx) == encode_utf8("IntelTDX    "@) {
                        Ok(true)
                    } else {
                        self.hyperv_cvm(CPUID_HYPERV_ISOLATION_TYPE_TDX)
                    },
                    Err(probe) => Err(probe),
                }
            },
            Err(probe) => Err(probe),
        }
    }

    /// Whether the VM is confidential.
    pub open spec fn confidential(self) -> Result<bool, CpuProbe> {
        match self.in_hypervisor() {
            Ok(true) => match self.cpuid(0) {
                Ok(vendor) => if signature_swapped(vendor) == encode_utf8("AuthenticAMD"@) {
                    self.sev()
                } else if signature_swapped(vendor) == encode_utf8("GenuineIntel"@) {
                    self.tdx()
                } else {
                    Ok(false)
                },
                Err(probe) => Err(probe),
            },
            Ok(false) => Ok(false),
            Err(probe) => Err(probe),
        }
    }
}

/// Whether we are running inside a confidential VM (AMD SEV or Intel TDX), or
/// what has to be known of the processor to tell.
///
/// Data provided by the host, such as the SMBIOS tables, is not covered by the
/// attestation of a confidential VM and must not be trusted there.
pub fn is_confidential_vm(facts: &CpuFacts) -> (confidential: Result<bool, CpuProbe>)
    ensures
        confidential == facts@.confidential(),
{
    match cpuid_in_hypervisor(facts) {
        Ok(true) => {},
        Ok(false) => {
            return Ok(false);
        },
        Err(probe) => {
            return Err(probe);
        },
    }
    let vendor = match facts.cpuid(0) {
        Ok(vendor) => vendor,
        Err(probe) => {
            return Err(probe);
        },
    };
    let sig = cpuid_signature_swapped(vendor);
    if same_bytes(&sig, "AuthenticAMD".as_bytes()) {
        return detect_sev(facts);
    }
    if same_bytes(&sig, "GenuineIntel".as_bytes()) {
        return detect_tdx(facts);
    }
    Ok(false)
}

fn cpuid_in_hypervisor(facts: &CpuFacts) -> (virtual_cpu: Result<bool, CpuProbe>)
    ensures
        virtual_cpu == facts@.in_hypervisor(),
{
    match facts.cpuid(0) {
        Ok(vendor) => {
            if vendor.eax < CPUID_PROCESSOR_INFO_AND_FEATURE_BITS {
                return Ok(false);
            }
        },
        Err(probe) => {
            return Err(probe);
        },
    }
    match facts.cpuid(CPUID_PROCESSOR_INFO_AND_FEATURE_BITS) {
        Ok(features) => Ok(features.ecx & CPUID_FEATURE_HYPERVISOR != 0),
        Err(probe) => Err(probe),
    }
}

fn detect_sev(facts: &CpuFacts) -> (found: Result<bool, CpuProbe>)
    ensures
        found == facts@.sev(),
{
    match facts.cpuid(CPUID_GET_HIGHEST_FUNCTION) {
        Ok(highest) => {
            if highest.eax < CPUID_AMD_GET_ENCRYPTED_MEMORY_CAPABILITIES {
                return Ok(false);
            }
        },
        Err(probe) => {
            return Err(probe);
        },
    }
    match facts.cpuid(CPUID_AMD_GET_ENCRYPTED_MEMORY_CAPABILITIES) {
        Ok(capabilities) => {
            // Azure blocks this CPUID leaf from its SEV-SNP guests, so fall
            // back to the Hyper-V specific CPUID checks.
            if capabilities.eax & EAX_SEV == 0 {
                return detect_hyperv_cvm(facts, CPUID_HYPERV_ISOLATION_TYPE_SNP);
            }
        },
        Err(probe) => {
            return Err(probe);
        },
    }
    match facts.sev_status {
        Some(status) => Ok(status & MSR_SEV_ANY != 0),
        None => Err(CpuProbe::SevStatus),
    }
}

fn detect_tdx(facts: &CpuFacts) -> (found: Result<bool, CpuProbe>)
    ensures
        found == facts@.tdx(),
{
    match facts.cpuid(CPUID_GET_HIGHEST_FUNCTION) {
        Ok(highest) => {
            if highest.eax < CPUID_INTEL_TDX_ENUMERATION {
                return Ok(false);
            }
        },
        Err(probe) => {
            return Err(probe);
        },
    }
    match facts.cpuid(CPUID_INTEL_TDX_ENUMERATION) {
        Ok(tdx) => {
            if same_bytes(&cpuid_signature_swapped(tdx), "IntelTDX    ".as_bytes()) {
                return Ok(true);
            }
        },
        Err(probe) => {
            return Err(probe);
        },
    }
    detect_hyperv_cvm(facts, CPUID_HYPERV_ISOLATION_TYPE_TDX)
}

fn detect_hyperv_cvm(facts: &CpuFacts, isolation_type: u32) -> (found: Result<bool, CpuProbe>)
    ensures
        found == facts@.hyperv_cvm(isolation_type),
{
    match facts.cpuid(CPUID_HYPERV_VENDOR_AND_MAX_FUNCTIONS) {
        Ok(vendor) => {
            if !(CPUID_HYPERV_MIN <= vendor.eax && vendor.eax <= CPUID_HYPERV_MAX) {
                return Ok(false);
            }
            if !same_bytes(&cpuid_signature(vendor), "Microsoft Hv".as_bytes()) {
                return Ok(false);
            }
        },
        Err(probe) => {
            return Err(probe);
        },
    }
    match facts.cpuid(CPUID_HYPERV_FEATURES) {
        Ok(features) => {
            if features.ebx & CPUID_HYPERV_ISOLATION == 0 || features.ebx
                & CPUID_HYPERV_CPU_MANAGEMENT != 0 {
                return Ok(false);
            }
        },
        Err(probe) => {
            return Err(probe);
        },
    }
    match facts.cpuid(CPUID_HYPERV_ISOLATION_CONFIG) {
        Ok(config) => Ok(config.ebx & CPUID_HYPERV_ISOLATION_TYPE_MASK == isolation_type),
        Err(probe) => Err(probe),
    }
}

/// A processor, of which everything is known.
pub struct CpuModel {
    pub cpuid: spec_fn(u32) -> CpuidResult,
    pub sev_status: u64,
}

impl CpuModel {
    /// Whether the processor is virtual.
    pub open spec fn in_hypervisor(self) -> bool {
        &&& (self.cpuid)(0).eax >= CPUID_PROCESSOR_INFO_AND_FEATURE_BITS
        &&& (self.cpuid)(CPUID_PROCESSOR_INFO_AND_FEATURE_BITS).ecx & CPUID_FEATURE_HYPERVISOR != 0
    }

    /// Whether Hyper-V isolates the VM in a certain way.
    pub open spec fn hyperv_cvm(self, isolation_type: u32) -> bool {
        let vendor = (self.cpuid)(CPUID_HYPERV_VENDOR_AND_MAX_FUNCTIONS);
        let features = (self.cpuid)(CPUID_HYPERV_FEATURES);
        let config = (self.cpuid)(CPUID_HYPERV_ISOLATION_CONFIG);
        &&& CPUID_HYPERV_MIN <= vendor.eax <= CPUID_HYPERV_MAX
        &&& signature(vendor) == encode_utf8("Microsoft Hv"@)
        &&& features.ebx & CPUID_HYPERV_ISOLATION != 0
        &&& features.ebx & CPUID_HYPERV_CPU_MANAGEMENT == 0
        &&& config.ebx & CPUID_HYPERV_ISOLATION_TYPE_MASK == isolation_type
    }

    /// Whether an AMD processor advertises SEV.
    pub open spec fn advertises_sev(self) -> bool {
        (self.cpuid)(CPUID_AMD_GET_ENCRYPTED_MEMORY_CAPABILITIES).eax & EAX_SEV != 0
    }

    /// Whether the VM is confidential.
    pub open spec fn confidential(self) -> bool {
        let vendor = signature_swapped((self.cpuid)(0));
        let highest = (self.cpuid)(CPUID_GET_HIGHEST_FUNCTION).eax;
        &&& self.in_hypervisor()
        &&& {
            ||| vendor == encode_utf8("AuthenticAMD"@) && highest
                >= CPUID_AMD_GET_ENCRYPTED_MEMORY_CAPABILITIES && if self.advertises_sev() {
                self.sev_status & MSR_SEV_ANY != 0
            } else {
                self.hyperv_cvm(CPUID_HYPERV_ISOLATION_TYPE_SNP)
            }
            ||| vendor == encode_utf8("GenuineIntel"@) && highest >= CPUID_INTEL_TDX_ENUMERATION
                && (signature_swapped((self.cpuid)(CPUID_INTEL_TDX_ENUMERATION)) == encode_utf8(
                "IntelTDX    "@,
            ) || self.hyperv_cvm(CPUID_HYPERV_ISOLATION_TYPE_TDX))
        }
    }
}

impl FactsModel {
    /// Whether everything that is known is true of a processor.
    pub open spec fn true_of(self, cpu: CpuModel) -> bool {
        &&& forall|leaf: u32| #[trigger]
            self.leaves.contains_key(leaf) ==> self.leaves[leaf] == (cpu.cpuid)(leaf)
        &&& self.sev_status matches Some(status) ==> status == cpu.sev_status
    }
}

proof fn lemma_vendors_differ()
    ensures
        encode_utf8("AuthenticAMD"@) != encode_utf8("GenuineIntel"@),
{
    reveal_strlit("AuthenticAMD");
    reveal_strlit("GenuineIntel");
    encode_utf8_decode_utf8("AuthenticAMD"@);
    encode_utf8_decode_utf8("GenuineIntel"@);
    assert("AuthenticAMD"@[0] != "GenuineIntel"@[0]);
}

/// A verdict that is reached on what is known is the verdict on the processor.
pub proof fn law_verdict_is_that_of_the_processor(
    facts: FactsModel,
    cpu: CpuModel,
    confidential: bool,
)
    requires
        facts.true_of(cpu),
        facts.confidential() == Ok::<bool, CpuProbe>(confidential),
    ensures
        confidential == cpu.confidential(),
{
    lemma_vendors_differ();
    assert(facts.leaves.contains_key(0) ==> facts.leaves[0] == (cpu.cpuid)(0));
}

/// Only what is not known yet is asked for, and no more than eight leaves and
/// one register: a verdict is reached in the end.
pub proof fn law_every_probe_is_new(facts: FactsModel, probe: CpuProbe)
    requires
        facts.confidential() == Err::<bool, CpuProbe>(probe),
    ensures
        !facts.knows(probe),
        probe matches CpuProbe::Cpuid(leaf) ==> leaf == 0 || leaf
            == CPUID_PROCESSOR_INFO_AND_FEATURE_BITS || leaf == CPUID_GET_HIGHEST_FUNCTION || leaf
            == CPUID_AMD_GET_ENCRYPTED_MEMORY_CAPABILITIES || leaf == CPUID_INTEL_TDX_ENUMERATION
            || leaf == CPUID_HYPERV_VENDOR_AND_MAX_FUNCTIONS || leaf == CPUID_HYPERV_FEATURES
            || leaf == CPUID_HYPERV_ISOLATION_CONFIG,
{
}

/// The SEV status register is read only in a VM on an AMD processor that
/// advertises SEV, where the register exists.
pub proof fn law_status_register_is_read_only_where_it_exists(facts: FactsModel, cpu: CpuModel)
    requires
        facts.true_of(cpu),
        facts.confidential() == Err::<bool, CpuProbe>(CpuProbe::SevStatus),
    ensures
        cpu.in_hypervisor(),
        signature_swapped((cpu.cpuid)(0)) == encode_utf8("AuthenticAMD"@),
        cpu.advertises_sev(),
{
    assert(facts.leaves.contains_key(0) ==> facts.leaves[0] == (cpu.cpuid)(0));
}

} // verus!
