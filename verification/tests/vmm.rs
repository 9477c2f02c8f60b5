use lanzaboote::vmm::{is_confidential_vm, CpuFacts, CpuProbe, CpuidResult};

fn registers(signature: &[u8; 12], eax: u32, order: [usize; 3]) -> CpuidResult {
    let word = |i: usize| {
        u32::from_le_bytes([
            signature[4 * i],
            signature[4 * i + 1],
            signature[4 * i + 2],
            signature[4 * i + 3],
        ])
    };
    CpuidResult {
        eax,
        ebx: word(order[0]),
        ecx: word(order[1]),
        edx: word(order[2]),
    }
}

fn plain(eax: u32, ebx: u32, ecx: u32) -> CpuidResult {
    CpuidResult {
        eax,
        ebx,
        ecx,
        edx: 0,
    }
}

/// The verdict on a processor, and the probes on the way to it.
fn verdict(leaves: &[(u32, CpuidResult)], sev_status: u64) -> (bool, Vec<CpuProbe>) {
    let mut facts = CpuFacts::new();
    let mut probes = Vec::new();
    loop {
        match is_confidential_vm(&facts) {
            Ok(confidential) => return (confidential, probes),
            Err(probe) => {
                probes.push(probe);
                match probe {
                    CpuProbe::Cpuid(leaf) => {
                        let result = leaves
                            .iter()
                            .find(|entry| entry.0 == leaf)
                            .map(|entry| entry.1)
                            .unwrap_or(plain(0, 0, 0));
                        facts.record_cpuid(leaf, result);
                    }
                    CpuProbe::SevStatus => facts.record_sev_status(sev_status),
                }
            }
        }
    }
}

const HYPERVISOR: (u32, CpuidResult) = (
    1,
    CpuidResult {
        eax: 0,
        ebx: 0,
        ecx: 0x8000_0000,
        edx: 0,
    },
);

fn vendor(signature: &[u8; 12]) -> (u32, CpuidResult) {
    (0, registers(signature, 0x20, [0, 2, 1]))
}

fn hyperv(isolation_type: u32, features: u32) -> Vec<(u32, CpuidResult)> {
    vec![
        (
            0x4000_0000,
            registers(b"Microsoft Hv", 0x4000_0005, [0, 1, 2]),
        ),
        (0x4000_0003, plain(0, features, 0)),
        (0x4000_000c, plain(0, isolation_type, 0)),
    ]
}

#[test]
fn bare_metal_is_not_confidential() {
    let (confidential, probes) = verdict(&[vendor(b"AuthenticAMD")], 7);
    assert!(!confidential);
    assert_eq!(probes, vec![CpuProbe::Cpuid(0), CpuProbe::Cpuid(1)]);
    let (confidential, probes) = verdict(&[], 7);
    assert!(!confidential);
    assert_eq!(probes, vec![CpuProbe::Cpuid(0)]);
}

#[test]
fn sev_guests_are_confidential() {
    let mut leaves = vec![
        vendor(b"AuthenticAMD"),
        HYPERVISOR,
        (0x8000_0000, plain(0x8000_001f, 0, 0)),
        (0x8000_001f, plain(2, 0, 0)),
    ];
    for status in [1, 2, 4, 7] {
        assert!(verdict(&leaves, status).0);
    }
    let (confidential, probes) = verdict(&leaves, 8);
    assert!(!confidential);
    assert_eq!(probes.last(), Some(&CpuProbe::SevStatus));
    leaves[2].1.eax = 0x8000_001e;
    assert!(!verdict(&leaves, 7).0);
}

#[test]
fn status_register_needs_the_sev_feature() {
    let mut leaves = vec![
        vendor(b"AuthenticAMD"),
        HYPERVISOR,
        (0x8000_0000, plain(0x8000_001f, 0, 0)),
        (0x8000_001f, plain(1, 0, 0)),
    ];
    leaves.append(&mut hyperv(2, 0x40_0000));
    let (confidential, probes) = verdict(&leaves, 0);
    assert!(confidential);
    assert!(!probes.contains(&CpuProbe::SevStatus));
}

#[test]
fn tdx_guests_are_confidential() {
    let mut leaves = vec![
        vendor(b"GenuineIntel"),
        HYPERVISOR,
        (0x8000_0000, plain(0x8000_0008, 0, 0)),
        (0x21, registers(b"IntelTDX    ", 0, [0, 2, 1])),
    ];
    assert!(verdict(&leaves, 0).0);
    leaves[3].1.ebx = 0;
    assert!(!verdict(&leaves, 0).0);
    leaves.append(&mut hyperv(3, 0x40_0000));
    assert!(verdict(&leaves, 0).0);
    leaves[2].1.eax = 0x20;
    assert!(!verdict(&leaves, 0).0);
}

#[test]
fn hyperv_isolation_is_checked_in_detail() {
    let base = vec![
        vendor(b"GenuineIntel"),
        HYPERVISOR,
        (0x8000_0000, plain(0x8000_0008, 0, 0)),
    ];
    let with = |mut more: Vec<(u32, CpuidResult)>| {
        let mut leaves = base.clone();
        leaves.append(&mut more);
        verdict(&leaves, 0).0
    };
    assert!(with(hyperv(3, 0x40_0000)));
    assert!(!with(hyperv(2, 0x40_0000)));
    assert!(!with(hyperv(3, 0)));
    assert!(!with(hyperv(3, 0x40_1000)));
    let mut small = hyperv(3, 0x40_0000);
    small[0].1.eax = 0x4000_0004;
    assert!(!with(small));
    let mut large = hyperv(3, 0x40_0000);
    large[0].1.eax = 0x4001_0000;
    assert!(!with(large));
    let mut other = hyperv(3, 0x40_0000);
    other[0].1.ebx = 0;
    assert!(!with(other));
}

#[test]
fn other_vendors_are_not_confidential() {
    assert!(!verdict(&[vendor(b"CentaurHauls"), HYPERVISOR], 7).0);
}
