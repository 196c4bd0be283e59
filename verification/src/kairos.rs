//! Userland view of Boulder's Kairos machine topology and ABI negotiation.
//!
//! The kernel writes a small summary page and answers a fixed-size topology
//! query; this module validates the reply, derives CPU affinity hints and
//! partitions work across NUMA domains in proportion to their enabled CPUs.

pub mod features;
pub mod partition;
pub mod trait_flags;

use vstd::prelude::*;

use crate::SyscallError;

verus! {

pub const MAXIMUM_CPUS: usize = 256;
pub const MAXIMUM_IO_DEVICES: usize = 64;
pub const MAXIMUM_DOMAINS: usize = 16;
pub const MAXIMUM_CPUS_PER_DOMAIN: usize = 256;
pub const ABI_KIND_NATIVE: u8 = 1;
pub const ABI_KIND_DRIVER: u8 = 2;

/// The kernel-written summary page.
pub struct KairosPage {
    pub cpu_count: u16,
    pub domain_count: u16,
    pub io_device_count: u16,
    pub numa_domains: u16,
    pub flags: u32,
    pub abi_features_lo: u32,
    pub abi_features_hi: u32,
    pub boot_epoch: u32,
}

impl KairosPage {
    pub fn zeroed() -> (r: KairosPage)
        ensures
            r.cpu_count == 0 && r.domain_count == 0 && r.io_device_count == 0 && r.numa_domains
                == 0 && r.flags == 0 && r.abi_features_lo == 0 && r.abi_features_hi == 0
                && r.boot_epoch == 0,
    {
        KairosPage {
            cpu_count: 0,
            domain_count: 0,
            io_device_count: 0,
            numa_domains: 0,
            flags: 0,
            abi_features_lo: 0,
            abi_features_hi: 0,
            boot_epoch: 0,
        }
    }

    pub fn cpu_count(&self) -> (r: u16)
        ensures
            r == self.cpu_count,
    {
        self.cpu_count
    }

    pub fn domain_count(&self) -> (r: u16)
        ensures
            r == self.domain_count,
    {
        self.domain_count
    }

    pub fn io_device_count(&self) -> (r: u16)
        ensures
            r == self.io_device_count,
    {
        self.io_device_count
    }

    pub fn numa_domains(&self) -> (r: u16)
        ensures
            r == self.numa_domains,
    {
        self.numa_domains
    }

    pub fn boot_epoch(&self) -> (r: u32)
        ensures
            r == self.boot_epoch,
    {
        self.boot_epoch
    }

    pub fn is_smp(&self) -> (r: bool)
        ensures
            r == (self.flags & trait_flags::SMP != 0),
    {
        self.has_trait(trait_flags::SMP)
    }

    pub fn is_numa(&self) -> (r: bool)
        ensures
            r == (self.flags & trait_flags::NUMA != 0),
    {
        self.has_trait(trait_flags::NUMA)
    }

    pub fn is_heterogeneous(&self) -> (r: bool)
        ensures
            r == (self.flags & trait_flags::HETEROGENEOUS != 0),
    {
        self.has_trait(trait_flags::HETEROGENEOUS)
    }

    pub fn has_offload(&self) -> (r: bool)
        ensures
            r == (self.flags & trait_flags::OFFLOAD != 0),
    {
        self.has_trait(trait_flags::OFFLOAD)
    }

    /// The 64-bit feature word assembled from its two halves.
    pub fn abi_features(&self) -> (r: u64)
        ensures
            r == self.abi_features_lo + self.abi_features_hi * 0x1_0000_0000,
    {
        let low = self.abi_features_lo as u64;
        let high = self.abi_features_hi as u64;
        assert(low | (high << 32u64) == low + high * 0x1_0000_0000) by (bit_vector)
            requires
                low < 0x1_0000_0000,
                high < 0x1_0000_0000,
        ;
        low | (high << 32u64)
    }

    /// The page is ready once the kernel has published a boot epoch.
    pub fn is_ready(&self) -> (r: bool)
        ensures
            r == (self.boot_epoch != 0),
    {
        self.boot_epoch() != 0
    }

    fn has_trait(&self, flag: u32) -> (r: bool)
        ensures
            r == (self.flags & flag != 0),
    {
        self.flags & flag != 0
    }
}

#[derive(Clone, Copy, Debug, PartialEq, Eq, Structural)]
pub enum CpuKind {
    Symmetric,
    Performance,
    Efficiency,
    Offload,
    Unknown,
}

pub open spec fn spec_cpu_kind(value: u8) -> CpuKind {
    match value {
        0 => CpuKind::Symmetric,
        1 => CpuKind::Performance,
        2 => CpuKind::Efficiency,
        3 => CpuKind::Offload,
        _ => CpuKind::Unknown,
    }
}

/// The raw CPU kind on the wire: 0 symmetric, 1 performance, 2
/// efficiency, 3 offload.
pub open spec fn cpu_kind_code(k: CpuKind) -> Option<u8> {
    match k {
        CpuKind::Symmetric => Some(0),
        CpuKind::Performance => Some(1),
        CpuKind::Efficiency => Some(2),
        CpuKind::Offload => Some(3),
        CpuKind::Unknown => None,
    }
}

/// Decoding follows the wire table: each known kind is decoded from its
/// own code, distinct codes up to 3 decode to distinct kinds, and any other
/// byte is an unknown kind.
pub proof fn lemma_cpu_kind_table(k: CpuKind, a: u8, b: u8)
    ensures
        cpu_kind_code(k) matches Some(c) ==> spec_cpu_kind(c) == k,
        a <= 3 ==> cpu_kind_code(spec_cpu_kind(a)) == Some(a),
        a <= 3 && b <= 3 && a != b ==> spec_cpu_kind(a) != spec_cpu_kind(b),
        a > 3 ==> spec_cpu_kind(a) == CpuKind::Unknown,
{
}

impl CpuKind {
    pub fn from_raw(value: u8) -> (r: CpuKind)
        ensures
            r == spec_cpu_kind(value),
    {
        match value {
            0 => CpuKind::Symmetric,
            1 => CpuKind::Performance,
            2 => CpuKind::Efficiency,
            3 => CpuKind::Offload,
            _ => CpuKind::Unknown,
        }
    }

    pub fn is_compute_capable(self) -> (r: bool)
        ensures
            r == (self == CpuKind::Symmetric || self == CpuKind::Performance),
    {
        matches!(self, CpuKind::Symmetric | CpuKind::Performance)
    }

    pub fn is_offload_only(self) -> (r: bool)
        ensures
            r == (self == CpuKind::Offload),
    {
        matches!(self, CpuKind::Offload)
    }
}

#[derive(Clone, Copy, Debug, PartialEq, Eq, Structural)]
pub struct CpuDescriptor {
    pub logical_id: u16,
    pub hardware_id: u32,
    pub package: u16,
    pub core: u16,
    pub thread: u16,
    pub numa_domain: u16,
    pub kind: CpuKind,
    pub enabled: bool,
}

#[derive(Clone, Copy, Debug, PartialEq, Eq, Structural)]
pub enum DomainKind {
    Machine,
    Numa,
}

/// One topology domain and its member CPUs.
#[derive(Clone, Debug)]
pub struct DomainDescriptor {
    pub id: u16,
    pub kind: DomainKind,
    pub parent: Option<u16>,
    members: Vec<u16>,
}

/// The abstract value of a domain.
pub struct DomainView {
    pub id: u16,
    pub kind: DomainKind,
    pub parent: Option<u16>,
    pub members: Seq<u16>,
}

impl View for DomainDescriptor {
    type V = DomainView;

    closed spec fn view(&self) -> DomainView {
        DomainView { id: self.id, kind: self.kind, parent: self.parent, members: self.members@ }
    }
}

impl DomainDescriptor {
    pub fn members(&self) -> (r: &[u16])
        ensures
            r@ == self@.members,
    {
        self.members.as_slice()
    }
}

// ---------------------------------------------------------------------------
// Raw kernel replies

/// One CPU record of the kernel's topology reply.
#[derive(Clone, Copy, Debug)]
pub struct RawCpu {
    pub logical_id: u16,
    pub hardware_id: u32,
    pub package: u16,
    pub core: u16,
    pub thread: u16,
    pub numa_domain: u16,
    pub kind: u8,
    pub enabled: u8,
}

/// One domain record of the kernel's topology reply.
#[derive(Clone, Debug)]
pub struct RawDomain {
    pub id: u16,
    pub kind: u8,
    pub parent_valid: u8,
    pub parent_id: u16,
    pub member_count: u16,
    pub members: Vec<u16>,
}

/// The kernel's fixed-size topology reply: a header and full-capacity
/// record tables of which only the counted prefixes are meaningful.
#[derive(Clone, Debug)]
pub struct RawTopology {
    pub cpu_count: u32,
    pub domain_count: u32,
    pub trait_flags: u32,
    pub cpus: Vec<RawCpu>,
    pub domains: Vec<RawDomain>,
}

/// The reply has the fixed capacity of the kernel's record tables.
pub open spec fn raw_shape(r: RawTopology) -> bool {
    &&& r.cpus@.len() == MAXIMUM_CPUS
    &&& r.domains@.len() == MAXIMUM_DOMAINS
    &&& forall|d: int| 0 <= d < MAXIMUM_DOMAINS ==> #[trigger] r.domains@[d].members@.len()
        == MAXIMUM_CPUS_PER_DOMAIN
}

impl RawTopology {
    /// An all-zero reply of full capacity.
    pub fn zeroed() -> (r: RawTopology)
        ensures
            raw_shape(r),
            r.cpu_count == 0,
            r.domain_count == 0,
            r.trait_flags == 0,
    {
        let mut cpus: Vec<RawCpu> = Vec::new();
        let mut i: usize = 0;
        while i < MAXIMUM_CPUS
            invariant
                i <= MAXIMUM_CPUS,
                cpus@.len() == i,
            decreases MAXIMUM_CPUS - i,
        {
            cpus.push(
                RawCpu {
                    logical_id: 0,
                    hardware_id: 0,
                    package: 0,
                    core: 0,
                    thread: 0,
                    numa_domain: 0,
                    kind: 0,
                    enabled: 0,
                },
            );
            i = i + 1;
        }
        let mut domains: Vec<RawDomain> = Vec::new();
        let mut d: usize = 0;
        while d < MAXIMUM_DOMAINS
            invariant
                d <= MAXIMUM_DOMAINS,
                domains@.len() == d,
                forall|k: int| 0 <= k < d ==> #[trigger] domains@[k].members@.len()
                    == MAXIMUM_CPUS_PER_DOMAIN,
            decreases MAXIMUM_DOMAINS - d,
        {
            let mut members: Vec<u16> = Vec::new();
            let mut m: usize = 0;
            while m < MAXIMUM_CPUS_PER_DOMAIN
                invariant
                    d < MAXIMUM_DOMAINS,
                    domains@.len() == d,
                    forall|k: int| 0 <= k < d ==> #[trigger] domains@[k].members@.len()
                        == MAXIMUM_CPUS_PER_DOMAIN,
                    m <= MAXIMUM_CPUS_PER_DOMAIN,
                    members@.len() == m,
                decreases MAXIMUM_CPUS_PER_DOMAIN - m,
            {
                members.push(0);
                m = m + 1;
            }
            let ghost before = domains@;
            let record = RawDomain {
                id: 0,
                kind: 0,
                parent_valid: 0,
                parent_id: 0,
                member_count: 0,
                members,
            };
            let ghost pushed = record;
            assert(pushed.members@.len() == MAXIMUM_CPUS_PER_DOMAIN);
            domains.push(record);
            assert(domains@ == before.push(pushed));
            assert forall|k: int| 0 <= k < d + 1 implies #[trigger] domains@[k].members@.len()
                == MAXIMUM_CPUS_PER_DOMAIN by {
                if k < d {
                    assert(domains@[k] == before[k]);
                    assert(before[k].members@.len() == MAXIMUM_CPUS_PER_DOMAIN);
                } else {
                    assert(domains@[k] == pushed);
                }
            }
            d = d + 1;
        }
        RawTopology { cpu_count: 0, domain_count: 0, trait_flags: 0, cpus, domains }
    }
}

pub open spec fn cpu_of_raw(r: RawCpu) -> CpuDescriptor {
    CpuDescriptor {
        logical_id: r.logical_id,
        hardware_id: r.hardware_id,
        package: r.package,
        core: r.core,
        thread: r.thread,
        numa_domain: r.numa_domain,
        kind: spec_cpu_kind(r.kind),
        enabled: r.enabled != 0,
    }
}

pub open spec fn domain_of_raw(r: RawDomain) -> DomainView {
    DomainView {
        id: r.id,
        kind: if r.kind == 1 {
            DomainKind::Numa
        } else {
            DomainKind::Machine
        },
        parent: if r.parent_valid != 0 {
            Some(r.parent_id)
        } else {
            None
        },
        members: r.members@.take(r.member_count as int),
    }
}

/// `id` names one of the first `n` raw CPUs.
pub open spec fn raw_has_cpu(r: RawTopology, n: int, id: u16) -> bool {
    exists|i: int| 0 <= i < n && #[trigger] r.cpus@[i].logical_id == id
}

/// `id` names one of the first `n` raw domains.
pub open spec fn raw_has_domain(r: RawTopology, n: int, id: u16) -> bool {
    exists|i: int| 0 <= i < n && #[trigger] r.domains@[i].id == id
}

/// One raw domain record is acceptable: a bounded member list of distinct
/// known CPUs, a known kind, and an id not used by an earlier domain.
pub open spec fn raw_domain_ok(r: RawTopology, d: int) -> bool {
    let dom = r.domains@[d];
    let mc = dom.member_count as int;
    &&& mc <= MAXIMUM_CPUS_PER_DOMAIN
    &&& dom.kind <= 1
    &&& !raw_has_domain(r, d, dom.id)
    &&& forall|a: int, b: int| 0 <= a < b < mc ==> dom.members@[a] != dom.members@[b]
    &&& forall|a: int| 0 <= a < mc ==> raw_has_cpu(r, r.cpu_count as int, #[trigger] dom.members@[a])
}

/// The whole reply is acceptable.
pub open spec fn raw_topology_valid(r: RawTopology) -> bool {
    let cc = r.cpu_count as int;
    let dc = r.domain_count as int;
    &&& 0 < cc <= MAXIMUM_CPUS
    &&& 0 < dc <= MAXIMUM_DOMAINS
    &&& forall|a: int, b: int| 0 <= a < b < cc ==> r.cpus@[a].logical_id != r.cpus@[b].logical_id
    &&& forall|d: int| 0 <= d < dc ==> #[trigger] raw_domain_ok(r, d)
    &&& forall|d: int|
        0 <= d < dc && #[trigger] r.domains@[d].parent_valid != 0 ==> raw_has_domain(
            r,
            dc,
            r.domains@[d].parent_id,
        )
}

#[derive(Clone, Copy, Debug, PartialEq, Eq, Structural)]
pub enum KairosError {
    Syscall(SyscallError),
    NotReady,
    Busy,
    InvalidTopology,
}

// ---------------------------------------------------------------------------
// Topology snapshots

/// The abstract value of a topology snapshot.
pub struct TopologyView {
    pub cpus: Seq<CpuDescriptor>,
    pub domains: Seq<DomainView>,
    pub trait_flags: u32,
}

/// A validated machine topology.
pub struct TopologySnapshot {
    cpus: Vec<CpuDescriptor>,
    domains: Vec<DomainDescriptor>,
    trait_flags: u32,
}

impl TopologySnapshot {
    /// The tables stay within the kernel's capacities.
    #[verifier::type_invariant]
    closed spec fn snapshot_wf(self) -> bool {
        &&& self.cpus@.len() <= MAXIMUM_CPUS
        &&& self.domains@.len() <= MAXIMUM_DOMAINS
        &&& forall|i: int|
            0 <= i < self.domains@.len() ==> #[trigger] self.domains@[i].members@.len()
                <= MAXIMUM_CPUS_PER_DOMAIN
    }
}

/// A topology value within the kernel's capacities.
pub open spec fn topology_bounded(v: TopologyView) -> bool {
    &&& v.cpus.len() <= MAXIMUM_CPUS
    &&& v.domains.len() <= MAXIMUM_DOMAINS
    &&& forall|i: int|
        0 <= i < v.domains.len() ==> #[trigger] v.domains[i].members.len()
            <= MAXIMUM_CPUS_PER_DOMAIN
}

impl View for TopologySnapshot {
    type V = TopologyView;

    closed spec fn view(&self) -> TopologyView {
        TopologyView {
            cpus: self.cpus@,
            domains: Seq::new(self.domains@.len(), |i: int| self.domains@[i]@),
            trait_flags: self.trait_flags,
        }
    }
}

/// `id` names an enabled CPU of the snapshot.
pub open spec fn cpu_enabled(cpus: Seq<CpuDescriptor>, id: u16) -> bool {
    exists|i: int| 0 <= i < cpus.len() && #[trigger] cpus[i].logical_id == id && cpus[i].enabled
}

/// `id` names an enabled CPU of the given kind.
pub open spec fn cpu_enabled_of_kind(cpus: Seq<CpuDescriptor>, id: u16, kind: CpuKind) -> bool {
    exists|i: int|
        0 <= i < cpus.len() && #[trigger] cpus[i].logical_id == id && cpus[i].enabled
            && cpus[i].kind == kind
}

/// The number of members of a domain that are enabled CPUs.
pub open spec fn enabled_members(cpus: Seq<CpuDescriptor>, members: Seq<u16>) -> nat
    decreases members.len(),
{
    if members.len() == 0 {
        0
    } else {
        enabled_members(cpus, members.drop_last()) + if cpu_enabled(cpus, members.last()) {
            1nat
        } else {
            0nat
        }
    }
}

/// Some member of the domain is an enabled CPU of the given kind.
pub open spec fn domain_has_kind(cpus: Seq<CpuDescriptor>, d: DomainView, kind: CpuKind) -> bool {
    exists|j: int| 0 <= j < d.members.len() && cpu_enabled_of_kind(cpus, #[trigger] d.members[j], kind)
}

/// The predicate of the enabled CPUs of one NUMA domain.
pub open spec fn enabled_in_domain(domain_id: u16) -> spec_fn(CpuDescriptor) -> bool {
    |c: CpuDescriptor| c.enabled && c.numa_domain == domain_id
}

/// The first CPU with the logical id, if any.
pub open spec fn first_cpu_with(cpus: Seq<CpuDescriptor>, id: u16, from: int) -> Option<int>
    decreases cpus.len() - from,
{
    if from >= cpus.len() || from < 0 {
        None
    } else if cpus[from].logical_id == id {
        Some(from)
    } else {
        first_cpu_with(cpus, id, from + 1)
    }
}

proof fn lemma_enabled_members_bound(cpus: Seq<CpuDescriptor>, members: Seq<u16>)
    ensures
        enabled_members(cpus, members) <= members.len(),
    decreases members.len(),
{
    if members.len() > 0 {
        lemma_enabled_members_bound(cpus, members.drop_last());
    }
}

impl TopologySnapshot {
    /// Validates a complete topology reply: nonempty bounded tables,
    /// distinct CPU ids, and domains of distinct ids whose members are
    /// distinct known CPUs and whose parents exist.
    pub fn from_raw(reply: &RawTopology) -> (r: Result<TopologySnapshot, KairosError>)
        requires
            raw_shape(*reply),
        ensures
            r is Err <==> !raw_topology_valid(*reply),
            r is Err ==> r == Err::<TopologySnapshot, KairosError>(KairosError::InvalidTopology),
            r is Ok ==> r->Ok_0@ == (TopologyView {
                cpus: Seq::new(reply.cpu_count as nat, |i: int| cpu_of_raw(reply.cpus@[i])),
                domains: Seq::new(
                    reply.domain_count as nat,
                    |i: int| domain_of_raw(reply.domains@[i]),
                ),
                trait_flags: reply.trait_flags,
            }),
    {
        let cpu_count = reply.cpu_count as usize;
        let domain_count = reply.domain_count as usize;
        if cpu_count == 0 || domain_count == 0 || cpu_count > MAXIMUM_CPUS || domain_count
            > MAXIMUM_DOMAINS {
            return Err(KairosError::InvalidTopology);
        }
        let mut cpus: Vec<CpuDescriptor> = Vec::new();
        let mut index: usize = 0;
        while index < cpu_count
            invariant
                raw_shape(*reply),
                cpu_count == reply.cpu_count,
                0 < cpu_count <= MAXIMUM_CPUS,
                index <= cpu_count,
                cpus@ == Seq::new(index as nat, |i: int| cpu_of_raw(reply.cpus@[i])),
                forall|a: int, b: int|
                    0 <= a < b < index ==> reply.cpus@[a].logical_id != reply.cpus@[b].logical_id,
            decreases cpu_count - index,
        {
            let raw = reply.cpus[index];
            let mut k: usize = 0;
            while k < index
                invariant
                    cpu_count == reply.cpu_count,
                    index < cpu_count <= MAXIMUM_CPUS,
                    raw_shape(*reply),
                    raw == reply.cpus@[index as int],
                    k <= index,
                    cpus@ == Seq::new(index as nat, |i: int| cpu_of_raw(reply.cpus@[i])),
                    forall|a: int| 0 <= a < k ==> reply.cpus@[a].logical_id != raw.logical_id,
                decreases index - k,
            {
                if cpus[k].logical_id == raw.logical_id {
                    assert(cpus@[k as int] == cpu_of_raw(reply.cpus@[k as int]));
                    assert(reply.cpus@[k as int].logical_id == reply.cpus@[index as int].logical_id);
                    assert(!raw_topology_valid(*reply));
                    return Err(KairosError::InvalidTopology);
                }
                k = k + 1;
            }
            cpus.push(
                CpuDescriptor {
                    logical_id: raw.logical_id,
                    hardware_id: raw.hardware_id,
                    package: raw.package,
                    core: raw.core,
                    thread: raw.thread,
                    numa_domain: raw.numa_domain,
                    kind: CpuKind::from_raw(raw.kind),
                    enabled: raw.enabled != 0,
                },
            );
            assert(cpus@ =~= Seq::new((index + 1) as nat, |i: int| cpu_of_raw(reply.cpus@[i])));
            index = index + 1;
        }
        let mut domains: Vec<DomainDescriptor> = Vec::new();
        let mut d: usize = 0;
        while d < domain_count
            invariant
                raw_shape(*reply),
                cpu_count == reply.cpu_count,
                domain_count == reply.domain_count,
                0 < cpu_count <= MAXIMUM_CPUS,
                0 < domain_count <= MAXIMUM_DOMAINS,
                d <= domain_count,
                cpus@ == Seq::new(cpu_count as nat, |i: int| cpu_of_raw(reply.cpus@[i])),
                forall|a: int, b: int|
                    0 <= a < b < cpu_count ==> reply.cpus@[a].logical_id
                        != reply.cpus@[b].logical_id,
                domains@.len() == d,
                forall|k: int| 0 <= k < d ==> #[trigger] domains@[k]@ == domain_of_raw(
                    reply.domains@[k],
                ),
                forall|k: int| 0 <= k < d ==> #[trigger] raw_domain_ok(*reply, k),
                forall|k: int| 0 <= k < d ==> #[trigger] domains@[k].members@.len()
                    <= MAXIMUM_CPUS_PER_DOMAIN,
            decreases domain_count - d,
        {
            let raw = &reply.domains[d];
            let member_count = raw.member_count as usize;
            if member_count > MAXIMUM_CPUS_PER_DOMAIN || raw.kind > 1 {
                assert(!raw_domain_ok(*reply, d as int));
                return Err(KairosError::InvalidTopology);
            }
            let mut k: usize = 0;
            while k < d
                invariant
                    raw_shape(*reply),
                    d < domain_count,
                    domain_count == reply.domain_count,
                    domain_count <= MAXIMUM_DOMAINS,
                    domains@.len() == d,
                    forall|j: int| 0 <= j < d ==> #[trigger] domains@[j]@ == domain_of_raw(
                        reply.domains@[j],
                    ),
                    *raw == reply.domains@[d as int],
                    k <= d,
                    forall|j: int| 0 <= j < k ==> reply.domains@[j].id != raw.id,
                decreases d - k,
            {
                if domains[k].id == raw.id {
                    assert(domains@[k as int]@ == domain_of_raw(reply.domains@[k as int]));
                    assert(raw_has_domain(*reply, d as int, raw.id));
                    assert(!raw_domain_ok(*reply, d as int));
                    return Err(KairosError::InvalidTopology);
                }
                k = k + 1;
            }
            let mut a: usize = 0;
            while a < member_count
                invariant
                    raw_shape(*reply),
                    d < domain_count,
                    domain_count == reply.domain_count,
                    domain_count <= MAXIMUM_DOMAINS,
                    *raw == reply.domains@[d as int],
                    member_count == raw.member_count,
                    member_count <= MAXIMUM_CPUS_PER_DOMAIN,
                    raw.members@.len() == MAXIMUM_CPUS_PER_DOMAIN,
                    cpu_count == reply.cpu_count,
                    cpu_count <= MAXIMUM_CPUS,
                    cpus@ == Seq::new(cpu_count as nat, |i: int| cpu_of_raw(reply.cpus@[i])),
                    a <= member_count,
                    forall|x: int, y: int| 0 <= x < y < a ==> raw.members@[x] != raw.members@[y],
                    forall|x: int| 0 <= x < a ==> raw_has_cpu(*reply, cpu_count as int, #[trigger] raw.members@[x]),
                decreases member_count - a,
            {
                let member = raw.members[a];
                let mut b: usize = 0;
                while b < a
                    invariant
                        raw_shape(*reply),
                        d < domain_count,
                        domain_count == reply.domain_count,
                        domain_count <= MAXIMUM_DOMAINS,
                        *raw == reply.domains@[d as int],
                        member_count == raw.member_count,
                        raw.members@.len() == MAXIMUM_CPUS_PER_DOMAIN,
                        a < member_count <= MAXIMUM_CPUS_PER_DOMAIN,
                        member == raw.members@[a as int],
                        b <= a,
                        forall|x: int| 0 <= x < b ==> raw.members@[x] != member,
                    decreases a - b,
                {
                    if raw.members[b] == member {
                        assert(!raw_domain_ok(*reply, d as int));
                        return Err(KairosError::InvalidTopology);
                    }
                    b = b + 1;
                }
                let mut c: usize = 0;
                let mut known = false;
                while c < cpu_count
                    invariant
                        raw_shape(*reply),
                        cpu_count <= MAXIMUM_CPUS,
                        cpus@ == Seq::new(cpu_count as nat, |i: int| cpu_of_raw(reply.cpus@[i])),
                        c <= cpu_count,
                        known ==> raw_has_cpu(*reply, cpu_count as int, member),
                        !known ==> forall|x: int| 0 <= x < c ==> reply.cpus@[x].logical_id != member,
                    decreases cpu_count - c,
                {
                    if cpus[c].logical_id == member {
                        assert(reply.cpus@[c as int].logical_id == member);
                        known = true;
                    }
                    c = c + 1;
                }
                if !known {
                    assert(!raw_has_cpu(*reply, cpu_count as int, member));
                    assert(!raw_domain_ok(*reply, d as int));
                    return Err(KairosError::InvalidTopology);
                }
                a = a + 1;
            }
            let ghost members_view = raw.members@.take(member_count as int);
            let mut members: Vec<u16> = Vec::new();
            let mut m: usize = 0;
            while m < member_count
                invariant
                    raw.members@.len() == MAXIMUM_CPUS_PER_DOMAIN,
                    member_count <= MAXIMUM_CPUS_PER_DOMAIN,
                    m <= member_count,
                    members@ == raw.members@.take(m as int),
                decreases member_count - m,
            {
                members.push(raw.members[m]);
                assert(members@ =~= raw.members@.take(m + 1));
                m = m + 1;
            }
            let domain = DomainDescriptor {
                id: raw.id,
                kind: if raw.kind == 1 {
                    DomainKind::Numa
                } else {
                    DomainKind::Machine
                },
                parent: if raw.parent_valid != 0 {
                    Some(raw.parent_id)
                } else {
                    None
                },
                members,
            };
            assert(raw_domain_ok(*reply, d as int));
            let ghost prior = domains@;
            domains.push(domain);
            assert forall|k: int| 0 <= k < d + 1 implies #[trigger] domains@[k].members@.len()
                <= MAXIMUM_CPUS_PER_DOMAIN by {
                if k < d {
                    assert(domains@[k] == prior[k]);
                }
            }
            d = d + 1;
        }
        let mut p: usize = 0;
        while p < domain_count
            invariant
                raw_shape(*reply),
                domain_count == reply.domain_count,
                0 < domain_count <= MAXIMUM_DOMAINS,
                domains@.len() == domain_count,
                forall|k: int| 0 <= k < domain_count ==> #[trigger] domains@[k]@ == domain_of_raw(
                    reply.domains@[k],
                ),
                p <= domain_count,
                cpus@.len() == reply.cpu_count,
                reply.cpu_count <= MAXIMUM_CPUS,
                forall|k: int| 0 <= k < domain_count ==> #[trigger] domains@[k].members@.len()
                    <= MAXIMUM_CPUS_PER_DOMAIN,
                forall|k: int|
                    0 <= k < p && #[trigger] reply.domains@[k].parent_valid != 0
                        ==> raw_has_domain(*reply, domain_count as int, reply.domains@[k].parent_id),
            decreases domain_count - p,
        {
            assert(domains@[p as int]@ == domain_of_raw(reply.domains@[p as int]));
            match domains[p].parent {
                Some(parent) => {
                    let mut q: usize = 0;
                    let mut found = false;
                    while q < domain_count
                        invariant
                            raw_shape(*reply),
                            domain_count <= MAXIMUM_DOMAINS,
                            domains@.len() == domain_count,
                            forall|k: int|
                                0 <= k < domain_count ==> #[trigger] domains@[k]@ == domain_of_raw(
                                    reply.domains@[k],
                                ),
                            q <= domain_count,
                            found ==> raw_has_domain(*reply, domain_count as int, parent),
                            !found ==> forall|x: int| 0 <= x < q ==> reply.domains@[x].id != parent,
                        decreases domain_count - q,
                    {
                        if domains[q].id == parent {
                            assert(domains@[q as int]@ == domain_of_raw(reply.domains@[q as int]));
                            found = true;
                        }
                        q = q + 1;
                    }
                    if !found {
                        assert(reply.domains@[p as int].parent_valid != 0);
                        assert(!raw_has_domain(*reply, domain_count as int, parent));
                        assert(!raw_topology_valid(*reply));
                        return Err(KairosError::InvalidTopology);
                    }
                },
                None => {},
            }
            p = p + 1;
        }
        let snapshot = TopologySnapshot { cpus, domains, trait_flags: reply.trait_flags };
        assert(snapshot@.domains =~= Seq::new(
            reply.domain_count as nat,
            |i: int| domain_of_raw(reply.domains@[i]),
        ));
        Ok(snapshot)
    }

    pub fn cpus(&self) -> (r: &[CpuDescriptor])
        ensures
            r@ == self@.cpus,
    {
        self.cpus.as_slice()
    }

    pub fn domains(&self) -> (r: &[DomainDescriptor])
        ensures
            r@.len() == self@.domains.len(),
            forall|i: int| 0 <= i < r@.len() ==> r@[i]@ == #[trigger] self@.domains[i],
    {
        self.domains.as_slice()
    }

    pub fn is_smp(&self) -> (r: bool)
        ensures
            r == (self@.trait_flags & trait_flags::SMP != 0),
    {
        self.has_trait(trait_flags::SMP)
    }

    pub fn is_numa(&self) -> (r: bool)
        ensures
            r == (self@.trait_flags & trait_flags::NUMA != 0),
    {
        self.has_trait(trait_flags::NUMA)
    }

    pub fn is_heterogeneous(&self) -> (r: bool)
        ensures
            r == (self@.trait_flags & trait_flags::HETEROGENEOUS != 0),
    {
        self.has_trait(trait_flags::HETEROGENEOUS)
    }

    pub fn has_offload(&self) -> (r: bool)
        ensures
            r == (self@.trait_flags & trait_flags::OFFLOAD != 0),
    {
        self.has_trait(trait_flags::OFFLOAD)
    }

    fn has_trait(&self, flag: u32) -> (r: bool)
        ensures
            r == (self@.trait_flags & flag != 0),
    {
        self.trait_flags & flag != 0
    }

    /// The NUMA domain of the first CPU with the logical id.
    pub fn numa_domain_of(&self, logical_cpu_id: u16) -> (r: Option<u16>)
        ensures
            match first_cpu_with(self@.cpus, logical_cpu_id, 0) {
                None => r is None,
                Some(i) => r == Some(self@.cpus[i].numa_domain),
            },
    {
        let mut i: usize = 0;
        while i < self.cpus.len()
            invariant
                i <= self.cpus@.len(),
                first_cpu_with(self.cpus@, logical_cpu_id, 0) == first_cpu_with(
                    self.cpus@,
                    logical_cpu_id,
                    i as int,
                ),
            decreases self.cpus@.len() - i,
        {
            if self.cpus[i].logical_id == logical_cpu_id {
                return Some(self.cpus[i].numa_domain);
            }
            i = i + 1;
        }
        None
    }

    /// A cursor over the enabled CPUs of a NUMA domain, in CPU order.
    pub fn numa_local_cpus(&self, domain_id: u16) -> (r: NucleusCpuIter<'_>)
        ensures
            r.remaining() == self@.cpus.filter(enabled_in_domain(domain_id)),
    {
        let r = NucleusCpuIter { snapshot: self, domain_id, index: 0 };
        assert(self@.cpus.skip(0) =~= self@.cpus);
        r
    }

    /// A cursor over the domains in order.
    pub fn domain_iter(&self) -> (r: DomainIterator<'_>)
        ensures
            r.remaining() == self@.domains,
    {
        let r = DomainIterator { snapshot: self, index: 0 };
        assert(r.remaining() =~= self@.domains);
        r
    }

    fn enabled_member_count(&self, domain: &DomainDescriptor) -> (r: usize)
        requires
            domain@.members.len() <= MAXIMUM_CPUS_PER_DOMAIN,
        ensures
            r == enabled_members(self@.cpus, domain@.members),
    {
        let mut count: usize = 0;
        let mut j: usize = 0;
        while j < domain.members.len()
            invariant
                domain.members@.len() <= MAXIMUM_CPUS_PER_DOMAIN,
                j <= domain.members@.len(),
                count == enabled_members(self.cpus@, domain.members@.take(j as int)),
                count <= j,
            decreases domain.members@.len() - j,
        {
            let id = domain.members[j];
            let mut i: usize = 0;
            let mut hit = false;
            while i < self.cpus.len()
                invariant
                    i <= self.cpus@.len(),
                    hit ==> cpu_enabled(self.cpus@, id),
                    !hit ==> forall|x: int|
                        0 <= x < i ==> !(self.cpus@[x].logical_id == id && self.cpus@[x].enabled),
                decreases self.cpus@.len() - i,
            {
                if self.cpus[i].logical_id == id && self.cpus[i].enabled {
                    hit = true;
                }
                i = i + 1;
            }
            proof {
                assert(domain.members@.take(j + 1).drop_last() =~= domain.members@.take(j as int));
                assert(domain.members@.take(j + 1).last() == id);
            }
            if hit {
                count = count + 1;
            }
            j = j + 1;
        }
        assert(domain.members@.take(domain.members@.len() as int) =~= domain.members@);
        count
    }

    fn domain_has_enabled_kind(&self, domain: &DomainDescriptor, kind: CpuKind) -> (r: bool)
        ensures
            r == domain_has_kind(self@.cpus, domain@, kind),
    {
        let mut j: usize = 0;
        while j < domain.members.len()
            invariant
                j <= domain.members@.len(),
                forall|x: int|
                    0 <= x < j ==> !cpu_enabled_of_kind(self.cpus@, #[trigger] domain.members@[x], kind),
            decreases domain.members@.len() - j,
        {
            let id = domain.members[j];
            let mut i: usize = 0;
            while i < self.cpus.len()
                invariant
                    j < domain.members@.len(),
                    id == domain.members@[j as int],
                    i <= self.cpus@.len(),
                    forall|x: int|
                        0 <= x < i ==> !(self.cpus@[x].logical_id == id && self.cpus@[x].enabled
                            && self.cpus@[x].kind == kind),
                decreases self.cpus@.len() - i,
            {
                let cpu = self.cpus[i];
                if cpu.logical_id == id && cpu.enabled && cpu.kind == kind {
                    assert(cpu_enabled_of_kind(self.cpus@, domain.members@[j as int], kind));
                    assert(cpu_enabled_of_kind(self@.cpus, domain@.members[j as int], kind));
                    return true;
                }
                i = i + 1;
            }
            j = j + 1;
        }
        false
    }
}


// ---------------------------------------------------------------------------
// Affinity and partitioning

#[derive(Clone, Copy, Debug, PartialEq, Eq, Structural)]
pub enum WorkloadClass {
    Compute,
    Io,
    Offload,
    Any,
}

#[derive(Clone, Copy, Debug, PartialEq, Eq, Structural)]
pub struct CpuAffinityHint {
    pub domain_id: u16,
    pub preferred_kind: CpuKind,
    pub smp_eligible: bool,
}

pub open spec fn any_hint() -> CpuAffinityHint {
    CpuAffinityHint { domain_id: 0, preferred_kind: CpuKind::Symmetric, smp_eligible: true }
}

impl CpuAffinityHint {
    /// No placement preference.
    pub fn any() -> (r: CpuAffinityHint)
        ensures
            r == any_hint(),
    {
        CpuAffinityHint { domain_id: 0, preferred_kind: CpuKind::Symmetric, smp_eligible: true }
    }
}

/// The CPU kind each workload class prefers.
pub open spec fn preferred_kind(class: WorkloadClass) -> CpuKind {
    match class {
        WorkloadClass::Compute => CpuKind::Performance,
        WorkloadClass::Io => CpuKind::Efficiency,
        WorkloadClass::Offload => CpuKind::Offload,
        WorkloadClass::Any => CpuKind::Symmetric,
    }
}

/// The hint for the first eligible domain at or after `from`: a NUMA
/// domain (any domain for offload work) with an enabled CPU of the
/// preferred kind.
pub open spec fn affinity_scan(v: TopologyView, class: WorkloadClass, from: int) -> CpuAffinityHint
    decreases v.domains.len() - from,
{
    if from < 0 || from >= v.domains.len() {
        any_hint()
    } else {
        let d = v.domains[from];
        if (class == WorkloadClass::Offload || d.kind == DomainKind::Numa) && domain_has_kind(
            v.cpus,
            d,
            preferred_kind(class),
        ) {
            CpuAffinityHint {
                domain_id: d.id,
                preferred_kind: preferred_kind(class),
                smp_eligible: class != WorkloadClass::Offload && (class == WorkloadClass::Io
                    || v.trait_flags & trait_flags::SMP != 0),
            }
        } else {
            affinity_scan(v, class, from + 1)
        }
    }
}

pub open spec fn spec_compute_affinity(v: TopologyView, class: WorkloadClass) -> CpuAffinityHint {
    if class == WorkloadClass::Any {
        any_hint()
    } else {
        affinity_scan(v, class, 0)
    }
}

/// Domain `k` can take work of `class`: a NUMA domain (any domain for
/// offload work) holding an enabled CPU of the class's kind.
pub open spec fn affinity_eligible(v: TopologyView, class: WorkloadClass, k: int) -> bool {
    &&& 0 <= k < v.domains.len()
    &&& class == WorkloadClass::Offload || v.domains[k].kind == DomainKind::Numa
    &&& domain_has_kind(v.cpus, v.domains[k], preferred_kind(class))
}

/// The hint for `class` names the first domain in domain order that can
/// take the work, with the class's preferred kind (performance CPUs for
/// compute, efficiency CPUs for I/O, offload engines for offload work),
/// SMP placement for I/O and, on an SMP machine, for compute; without such
/// a domain, and for work of any class, there is no preference.
pub proof fn lemma_affinity_is_first_eligible(v: TopologyView, class: WorkloadClass)
    ensures
        class == WorkloadClass::Any ==> spec_compute_affinity(v, class) == any_hint(),
        class != WorkloadClass::Any && (forall|k: int| !#[trigger] affinity_eligible(v, class, k))
            ==> spec_compute_affinity(v, class) == any_hint(),
        class != WorkloadClass::Any && (exists|k: int| #[trigger] affinity_eligible(v, class, k))
            ==> exists|k: int|
            #![trigger affinity_eligible(v, class, k)]
            {
                &&& affinity_eligible(v, class, k)
                &&& forall|j: int| 0 <= j < k ==> !#[trigger] affinity_eligible(v, class, j)
                &&& spec_compute_affinity(v, class) == (CpuAffinityHint {
                    domain_id: v.domains[k].id,
                    preferred_kind: preferred_kind(class),
                    smp_eligible: class == WorkloadClass::Io || (class == WorkloadClass::Compute
                        && v.trait_flags & trait_flags::SMP != 0),
                })
            },
        preferred_kind(WorkloadClass::Compute) == CpuKind::Performance,
        preferred_kind(WorkloadClass::Io) == CpuKind::Efficiency,
        preferred_kind(WorkloadClass::Offload) == CpuKind::Offload,
{
    if class != WorkloadClass::Any {
        lemma_affinity_scan(v, class, 0);
    }
}

/// The scan from `from` finds the first domain at or after it that can
/// take the work.
proof fn lemma_affinity_scan(v: TopologyView, class: WorkloadClass, from: int)
    requires
        class != WorkloadClass::Any,
        0 <= from,
    ensures
        (forall|k: int| from <= k ==> !#[trigger] affinity_eligible(v, class, k)) ==> affinity_scan(
            v,
            class,
            from,
        ) == any_hint(),
        (exists|k: int| from <= k && #[trigger] affinity_eligible(v, class, k)) ==> exists|k: int|
            #![trigger affinity_eligible(v, class, k)]
            {
                &&& from <= k
                &&& affinity_eligible(v, class, k)
                &&& forall|j: int| from <= j < k ==> !#[trigger] affinity_eligible(v, class, j)
                &&& affinity_scan(v, class, from) == (CpuAffinityHint {
                    domain_id: v.domains[k].id,
                    preferred_kind: preferred_kind(class),
                    smp_eligible: class == WorkloadClass::Io || (class == WorkloadClass::Compute
                        && v.trait_flags & trait_flags::SMP != 0),
                })
            },
    decreases v.domains.len() - from,
{
    if from < v.domains.len() {
        lemma_affinity_scan(v, class, from + 1);
        if affinity_eligible(v, class, from) {
            assert(forall|j: int| from <= j < from ==> !#[trigger] affinity_eligible(v, class, j));
        } else {
            if exists|k: int| from <= k && #[trigger] affinity_eligible(v, class, k) {
                let k = choose|k: int| from <= k && #[trigger] affinity_eligible(v, class, k);
                assert(from + 1 <= k);
            }
        }
    } else {
        assert forall|k: int| from <= k implies !#[trigger] affinity_eligible(v, class, k) by {}
    }
}

#[derive(Clone, Copy, Debug, PartialEq, Eq, Structural)]
pub struct WorkSlice {
    pub domain_id: u16,
    pub start: usize,
    pub end: usize,
}

impl WorkSlice {
    pub fn len(&self) -> (r: usize)
        requires
            self.start <= self.end,
        ensures
            r == self.end - self.start,
    {
        self.end - self.start
    }

    pub fn is_empty(&self) -> (r: bool)
        requires
            self.start <= self.end,
        ensures
            r == (self.start == self.end),
    {
        self.len() == 0
    }
}

/// A partition of work into contiguous per-domain slices.
pub struct WorkPartition {
    pub slices: Vec<WorkSlice>,
    pub count: usize,
}

impl WorkPartition {
    /// The first `count` slices.
    pub fn iter(&self) -> (r: &[WorkSlice])
        requires
            self.count <= self.slices@.len(),
        ensures
            r@ == self.slices@.take(self.count as int),
    {
        vstd::slice::slice_subrange(self.slices.as_slice(), 0, self.count)
    }
}

/// The NUMA domains with at least one enabled member, with their weights,
/// in domain order.
pub open spec fn weighted_domains(cpus: Seq<CpuDescriptor>, doms: Seq<DomainView>) -> Seq<
    (u16, nat),
>
    decreases doms.len(),
{
    if doms.len() == 0 {
        Seq::empty()
    } else {
        let rest = weighted_domains(cpus, doms.drop_last());
        let d = doms.last();
        let w = enabled_members(cpus, d.members);
        if d.kind == DomainKind::Numa && w > 0 {
            rest.push((d.id, w))
        } else {
            rest
        }
    }
}

/// The slices `partition_work` hands out.
pub open spec fn spec_partition(v: TopologyView, total: nat) -> Seq<WorkSlice> {
    let ws = weighted_domains(v.cpus, v.domains);
    if partition::weight_sum(ws) == 0 {
        seq![WorkSlice { domain_id: 0, start: 0, end: total as usize }]
    } else {
        Seq::new(
            ws.len(),
            |i: int|
                WorkSlice {
                    domain_id: ws[i].0,
                    start: partition::chunk_start(total, ws, i) as usize,
                    end: (partition::chunk_start(total, ws, i) + partition::chunk_len(total, ws, i))
                        as usize,
                },
        )
    }
}

proof fn lemma_weighted_domains_bounds(cpus: Seq<CpuDescriptor>, doms: Seq<DomainView>)
    requires
        forall|i: int| 0 <= i < doms.len() ==> #[trigger] doms[i].members.len()
            <= MAXIMUM_CPUS_PER_DOMAIN,
    ensures
        weighted_domains(cpus, doms).len() <= doms.len(),
        partition::weight_sum(weighted_domains(cpus, doms)) <= MAXIMUM_CPUS_PER_DOMAIN
            * doms.len(),
        forall|i: int|
            0 <= i < weighted_domains(cpus, doms).len() ==> #[trigger] weighted_domains(
                cpus,
                doms,
            )[i].1 <= MAXIMUM_CPUS_PER_DOMAIN,
    decreases doms.len(),
{
    if doms.len() > 0 {
        let p = doms.drop_last();
        assert forall|i: int| 0 <= i < p.len() implies #[trigger] p[i].members.len()
            <= MAXIMUM_CPUS_PER_DOMAIN by {
            assert(p[i] == doms[i]);
        }
        lemma_weighted_domains_bounds(cpus, p);
        assert(doms.last() == doms[doms.len() - 1]);
        lemma_enabled_members_bound(cpus, doms.last().members);
        let rest = weighted_domains(cpus, p);
        let d = doms.last();
        let item = (d.id, enabled_members(cpus, d.members));
        assert(rest.push(item).drop_last() =~= rest);
    }
}

/// Partitioning tiles the work exactly: the slices are contiguous, start at
/// zero, end at `total`, and each NUMA domain's share is its proportional
/// share of the work rounded down, plus at most one unit.
///
/// Exactly: without enabled NUMA members the whole work is one slice of
/// domain zero; otherwise there is one slice per NUMA domain with enabled
/// members, in domain order, and slice `i` holds `floor(total * w_i / E)`
/// units plus one exactly when `i` is below the units the rounded-down
/// shares leave over.
pub proof fn lemma_partition_tiles(v: TopologyView, total: nat)
    requires
        total <= usize::MAX,
    ensures
        ({
            let p = spec_partition(v, total);
            let ws = weighted_domains(v.cpus, v.domains);
            &&& p.len() >= 1
            &&& p[0].start == 0
            &&& p[p.len() - 1].end == total
            &&& forall|i: int| 0 <= i < p.len() ==> #[trigger] p[i].start <= p[i].end
            &&& forall|i: int| 0 <= i < p.len() - 1 ==> #[trigger] p[i].end == p[i + 1].start
            &&& partition::weight_sum(ws) > 0 ==> forall|i: int|
                0 <= i < p.len() ==> (total * ws[i].1) / partition::weight_sum(ws) <= (
                #[trigger] p[i]).end - p[i].start <= (total * ws[i].1) / partition::weight_sum(
                ws,
            ) + 1
            &&& partition::weight_sum(ws) == 0 ==> p == seq![
                WorkSlice { domain_id: 0, start: 0, end: total as usize },
            ]
            &&& partition::weight_sum(ws) > 0 ==> p.len() == ws.len()
            &&& partition::weight_sum(ws) > 0 ==> forall|i: int|
                0 <= i < p.len() ==> (#[trigger] p[i]).domain_id == ws[i].0 && p[i].end
                    - p[i].start == partition::floor_share(
                    total,
                    partition::weight_sum(ws),
                    ws[i].1,
                ) + if i < total - partition::floor_share_sum(
                    total,
                    partition::weight_sum(ws),
                    ws,
                ) {
                    1int
                } else {
                    0int
                }
        }),
{
    let ws = weighted_domains(v.cpus, v.domains);
    let p = spec_partition(v, total);
    if partition::weight_sum(ws) > 0 {
        partition::lemma_base_sum_is_floor_share_sum(total, partition::weight_sum(ws), ws);
        assert forall|i: int| 0 <= i < p.len() implies (#[trigger] p[i]).domain_id == ws[i].0
            && p[i].end - p[i].start == partition::floor_share(
            total,
            partition::weight_sum(ws),
            ws[i].1,
        ) + if i < total - partition::floor_share_sum(total, partition::weight_sum(ws), ws) {
            1int
        } else {
            0int
        } by {
            partition::lemma_shares_cover(total, ws);
            assert(partition::chunk_start(total, ws, i + 1) <= total);
            assert(partition::chunk_start(total, ws, i) <= total);
            partition::lemma_base_chunk_is_floor_share(
                total,
                partition::weight_sum(ws),
                ws[i].1,
            );
        }
        partition::lemma_shares_cover(total, ws);
        partition::lemma_leftover_bounds(total, ws);
        assert forall|i: int| 0 <= i < p.len() implies #[trigger] p[i].start <= p[i].end && (
        total * ws[i].1) / partition::weight_sum(ws) <= p[i].end - p[i].start <= (total
            * ws[i].1) / partition::weight_sum(ws) + 1 by {
            assert(partition::chunk_start(total, ws, i + 1) <= total);
            assert(partition::chunk_start(total, ws, i) <= total);
            partition::lemma_share_is_proportional(total, ws, i);
        }
        assert forall|i: int| 0 <= i < p.len() - 1 implies #[trigger] p[i].end == p[i
            + 1].start by {
            assert(partition::chunk_start(total, ws, i + 1) <= total);
        }
        assert(partition::chunk_start(total, ws, ws.len() as int) == total);
        assert(partition::chunk_start(total, ws, 0) == 0);
    }
}

impl TopologySnapshot {
    /// The placement hint for a workload class: the first eligible domain
    /// that has an enabled CPU of the class's preferred kind.
    pub fn compute_affinity(&self, class: WorkloadClass) -> (r: CpuAffinityHint)
        ensures
            r == spec_compute_affinity(self@, class),
    {
        let preferred = match class {
            WorkloadClass::Compute => CpuKind::Performance,
            WorkloadClass::Io => CpuKind::Efficiency,
            WorkloadClass::Offload => CpuKind::Offload,
            WorkloadClass::Any => {
                return CpuAffinityHint::any();
            },
        };
        let domains = self.domains();
        let mut i: usize = 0;
        while i < domains.len()
            invariant
                preferred == preferred_kind(class),
                class != WorkloadClass::Any,
                i <= domains@.len(),
                domains@.len() == self@.domains.len(),
                forall|k: int| 0 <= k < domains@.len() ==> domains@[k]@ == #[trigger] self@.domains[k],
                affinity_scan(self@, class, 0) == affinity_scan(self@, class, i as int),
            decreases domains@.len() - i,
        {
            let domain = &domains[i];
            assert(domain@ == self@.domains[i as int]);
            let eligible = match class {
                WorkloadClass::Offload => true,
                _ => domain.kind == DomainKind::Numa,
            };
            if eligible && self.domain_has_enabled_kind(domain, preferred) {
                let smp_eligible = match class {
                    WorkloadClass::Offload => false,
                    WorkloadClass::Io => true,
                    _ => self.is_smp(),
                };
                return CpuAffinityHint { domain_id: domain.id, preferred_kind: preferred, smp_eligible };
            }
            i = i + 1;
        }
        CpuAffinityHint::any()
    }

    /// Partitions `total` units of work over the NUMA domains in proportion
    /// to their enabled CPUs; the rounding remainder goes one unit each to
    /// the first domains in order. Without any enabled NUMA CPU the whole
    /// range goes to domain 0.
    pub fn partition_work(&self, total: usize) -> (r: WorkPartition)
        ensures
            r.count == r.slices@.len(),
            r.slices@ == spec_partition(self@, total as nat),
    {
        proof {
            use_type_invariant(self);
        }
        let ghost v = self@;
        let ghost all = weighted_domains(v.cpus, v.domains);
        let domains = self.domains();
        let mut ids: Vec<u16> = Vec::new();
        let mut weights: Vec<usize> = Vec::new();
        let mut enabled_total: usize = 0;
        let mut i: usize = 0;
        proof {
            lemma_weighted_domains_bounds(v.cpus, v.domains);
        }
        while i < domains.len()
            invariant
                v == self@,
                topology_bounded(v),
                i <= domains@.len(),
                domains@.len() == v.domains.len(),
                forall|k: int| 0 <= k < domains@.len() ==> domains@[k]@ == #[trigger] v.domains[k],
                ids@.len() == weights@.len(),
                ids@.len() == weighted_domains(v.cpus, v.domains.take(i as int)).len(),
                forall|k: int|
                    0 <= k < ids@.len() ==> (#[trigger] ids@[k], #[trigger] weights@[k] as nat)
                        == weighted_domains(v.cpus, v.domains.take(i as int))[k],
                enabled_total == partition::weight_sum(
                    weighted_domains(v.cpus, v.domains.take(i as int)),
                ),
                enabled_total <= MAXIMUM_CPUS_PER_DOMAIN * i,
                ids@.len() <= i,
            decreases domains@.len() - i,
        {
            let domain = &domains[i];
            let ghost before = weighted_domains(v.cpus, v.domains.take(i as int));
            proof {
                assert(v.domains.take(i + 1).drop_last() =~= v.domains.take(i as int));
                assert(v.domains.take(i + 1).last() == v.domains[i as int]);
                assert(domain@ == v.domains[i as int]);
                assert(domain@.members.len() <= MAXIMUM_CPUS_PER_DOMAIN);
            }
            if domain.kind == DomainKind::Numa {
                let weight = self.enabled_member_count(domain);
                proof {
                    lemma_enabled_members_bound(v.cpus, domain@.members);
                }
                if weight != 0 {
                    ids.push(domain.id);
                    weights.push(weight);
                    enabled_total = enabled_total + weight;
                    proof {
                        let item = (domain.id, weight as nat);
                        assert(before.push(item).drop_last() =~= before);
                        assert(weighted_domains(v.cpus, v.domains.take(i + 1)) == before.push(item));
                    }
                }
            }
            i = i + 1;
        }
        proof {
            assert(v.domains.take(domains@.len() as int) =~= v.domains);
        }
        let ghost ws = all;
        if enabled_total == 0 {
            let mut slices: Vec<WorkSlice> = Vec::new();
            slices.push(WorkSlice { domain_id: 0, start: 0, end: total });
            return WorkPartition { slices, count: 1 };
        }
        let n = ids.len();
        let quotient = total / enabled_total;
        let residual = total % enabled_total;
        proof {
            partition::lemma_leftover_bounds(total as nat, ws);
            assert(enabled_total <= 4096);
            assert(quotient * enabled_total <= total) by (nonlinear_arith)
                requires
                    enabled_total > 0,
                    quotient == total / enabled_total,
            ;
        }
        let mut chunks: Vec<usize> = Vec::new();
        let mut allocated: usize = 0;
        let mut j: usize = 0;
        while j < n
            invariant
                ws == all,
                all == weighted_domains(v.cpus, v.domains),
                n == ids@.len(),
                ids@.len() == weights@.len(),
                ids@.len() == ws.len(),
                forall|k: int| 0 <= k < ids@.len() ==> (#[trigger] ids@[k], #[trigger] weights@[k] as nat) == ws[k],
                forall|k: int| 0 <= k < ws.len() ==> #[trigger] ws[k].1 <= MAXIMUM_CPUS_PER_DOMAIN,
                enabled_total == partition::weight_sum(ws),
                0 < enabled_total <= 4096,
                quotient == total / enabled_total,
                residual == total % enabled_total,
                quotient * enabled_total <= total,
                0 <= partition::leftover(total as nat, ws) < ws.len(),
                j <= n,
                chunks@.len() == j,
                forall|k: int| 0 <= k < j ==> #[trigger] chunks@[k] == partition::base_chunk(
                    total as nat,
                    enabled_total as nat,
                    ws[k].1,
                ),
                allocated == partition::base_sum(total as nat, enabled_total as nat, ws.take(j as int)),
            decreases n - j,
        {
            let weight = weights[j];
            proof {
                assert((ids@[j as int], weights@[j as int] as nat) == ws[j as int]);
                assert(ws[j as int].1 <= 256);
                assert(weight <= 256);
                assert(residual < enabled_total);
                assert(weight <= enabled_total) by {
                    partition::lemma_weight_le_sum(ws, j as int);
                }
                assert(residual * weight <= 4096 * 256) by (nonlinear_arith)
                    requires
                        residual < 4096,
                        weight <= 256,
                ;
                assert(quotient * weight <= quotient * enabled_total) by (nonlinear_arith)
                    requires
                        weight <= enabled_total,
                ;
                assert(ws.take(j + 1).drop_last() =~= ws.take(j as int));
                assert(ws.take(j + 1).last() == ws[j as int]);
                partition::lemma_base_sum_prefix(total as nat, enabled_total as nat, ws, j + 1);
                partition::lemma_leftover_bounds(total as nat, ws);
            }
            let chunk = quotient * weight + residual * weight / enabled_total;
            chunks.push(chunk);
            allocated = allocated + chunk;
            j = j + 1;
        }
        proof {
            assert(ws.take(n as int) =~= ws);
        }
        proof {
            partition::lemma_shares_cover(total as nat, ws);
            assert forall|x: int| 0 <= x < n implies #[trigger] partition::chunk_len(
                total as nat,
                ws,
                x,
            ) <= total by {
                assert(partition::chunk_start(total as nat, ws, x + 1) <= total);
            }
        }
        let extra = total - allocated;
        let mut e: usize = 0;
        while e < extra
            invariant
                extra == partition::leftover(total as nat, ws),
                extra < n,
                chunks@.len() == n,
                n == ws.len(),
                enabled_total == partition::weight_sum(ws),
                e <= extra,
                forall|k: int| 0 <= k < n ==> #[trigger] chunks@[k] == partition::base_chunk(
                    total as nat,
                    enabled_total as nat,
                    ws[k].1,
                ) + if k < e { 1int } else { 0int },
                forall|k: int| 0 <= k < n ==> #[trigger] partition::chunk_len(total as nat, ws, k) <= total,
            decreases extra - e,
        {
            proof {
                assert(partition::chunk_len(total as nat, ws, e as int) <= total);
            }
            let bumped = chunks[e] + 1;
            chunks.set(e, bumped);
            e = e + 1;
        }
        let mut slices: Vec<WorkSlice> = Vec::new();
        let mut cursor: usize = 0;
        let mut k: usize = 0;
        proof {
            partition::lemma_shares_cover(total as nat, ws);
        }
        while k < n
            invariant
                n == ws.len(),
                n == ids@.len(),
                forall|x: int| 0 <= x < ids@.len() ==> (#[trigger] ids@[x], #[trigger] weights@[x] as nat) == ws[x],
                chunks@.len() == n,
                partition::weight_sum(ws) > 0,
                forall|x: int| 0 <= x < n ==> #[trigger] chunks@[x] == partition::chunk_len(total as nat, ws, x),
                forall|x: int| 0 <= x <= n ==> #[trigger] partition::chunk_start(total as nat, ws, x) <= total,
                k <= n,
                cursor == partition::chunk_start(total as nat, ws, k as int),
                slices@ == spec_partition(v, total as nat).take(k as int),
                spec_partition(v, total as nat).len() == n,
                all == ws,
                all == weighted_domains(v.cpus, v.domains),
            decreases n - k,
        {
            proof {
                assert(partition::chunk_start(total as nat, ws, k + 1) <= total);
                assert((ids@[k as int], weights@[k as int] as nat) == ws[k as int]);
            }
            let end = cursor + chunks[k];
            slices.push(WorkSlice { domain_id: ids[k], start: cursor, end });
            proof {
                assert(slices@ =~= spec_partition(v, total as nat).take(k + 1));
            }
            cursor = end;
            k = k + 1;
        }
        proof {
            assert(spec_partition(v, total as nat).take(n as int) =~= spec_partition(v, total as nat));
        }
        WorkPartition { slices, count: n }
    }
}

// ---------------------------------------------------------------------------
// ABI negotiation

#[derive(Clone, Copy, Debug, PartialEq, Eq, Structural)]
pub struct NegotiatedFeatures {
    pub granted_lo: u64,
    pub granted_hi: u64,
    pub unavailable_lo: u64,
    pub unavailable_hi: u64,
}

impl NegotiatedFeatures {
    pub fn has(&self, feature: u64) -> (r: bool)
        ensures
            r == (self.granted_lo & feature != 0),
    {
        self.granted_lo & feature != 0
    }

    pub fn missing(&self, feature: u64) -> (r: bool)
        ensures
            r == (self.unavailable_lo & feature != 0),
    {
        self.unavailable_lo & feature != 0
    }
}

#[derive(Clone, Copy, Debug, PartialEq, Eq, Structural)]
pub enum AbiError {
    Syscall(SyscallError),
    InvalidReply,
    RequiredFeatureMissing { missing_lo: u64, missing_hi: u64 },
}

/// The kernel's answer to an ABI request.
#[derive(Clone, Copy, Debug, PartialEq, Eq, Structural)]
pub struct AbiReply {
    pub status: u32,
    pub features_lo_granted: u64,
    pub features_hi_granted: u64,
    pub features_lo_unavailable: u64,
    pub features_hi_unavailable: u64,
}

/// The feature sets and ABI kind a process asks the kernel for.
#[derive(Clone, Copy, Debug)]
pub struct AbiNegotiator {
    required_lo: u64,
    required_hi: u64,
    optional_lo: u64,
    optional_hi: u64,
    abi_kind: u8,
}

/// The abstract value of a negotiator.
pub struct NegotiatorView {
    pub required_lo: u64,
    pub required_hi: u64,
    pub optional_lo: u64,
    pub optional_hi: u64,
    pub abi_kind: u8,
}

impl View for AbiNegotiator {
    type V = NegotiatorView;

    closed spec fn view(&self) -> NegotiatorView {
        NegotiatorView {
            required_lo: self.required_lo,
            required_hi: self.required_hi,
            optional_lo: self.optional_lo,
            optional_hi: self.optional_hi,
            abi_kind: self.abi_kind,
        }
    }
}

/// What a negotiation yields for a kernel reply: a reply that failed or
/// granted anything unrequested is invalid; one that withheld a required
/// feature names what is missing; otherwise the grant is accepted.
pub open spec fn spec_negotiation(n: NegotiatorView, reply: AbiReply) -> Result<
    NegotiatedFeatures,
    AbiError,
> {
    if reply.status != 0 || reply.features_lo_granted & !(n.required_lo | n.optional_lo) != 0
        || reply.features_hi_granted & !(n.required_hi | n.optional_hi) != 0 {
        Err(AbiError::InvalidReply)
    } else if n.required_lo & !reply.features_lo_granted != 0 || n.required_hi
        & !reply.features_hi_granted != 0 {
        Err(
            AbiError::RequiredFeatureMissing {
                missing_lo: n.required_lo & !reply.features_lo_granted,
                missing_hi: n.required_hi & !reply.features_hi_granted,
            },
        )
    } else {
        Ok(
            NegotiatedFeatures {
                granted_lo: reply.features_lo_granted,
                granted_hi: reply.features_hi_granted,
                unavailable_lo: reply.features_lo_unavailable,
                unavailable_hi: reply.features_hi_unavailable,
            },
        )
    }
}

impl AbiNegotiator {
    /// A native process: basic syscalls required.
    pub fn native() -> (r: AbiNegotiator)
        ensures
            r@.required_lo == features::SYSCALL_BASIC,
            r@.required_hi == 0,
            r@.optional_lo == 0,
            r@.optional_hi == 0,
            r@.abi_kind == ABI_KIND_NATIVE,
    {
        AbiNegotiator {
            required_lo: features::SYSCALL_BASIC,
            required_hi: 0,
            optional_lo: 0,
            optional_hi: 0,
            abi_kind: ABI_KIND_NATIVE,
        }
    }

    /// A driver process: basic and driver syscalls required.
    pub fn driver() -> (r: AbiNegotiator)
        ensures
            r@.required_lo == features::SYSCALL_BASIC | features::SYSCALL_DRIVER,
            r@.required_hi == 0,
            r@.optional_lo == 0,
            r@.optional_hi == 0,
            r@.abi_kind == ABI_KIND_DRIVER,
    {
        AbiNegotiator {
            required_lo: features::SYSCALL_BASIC | features::SYSCALL_DRIVER,
            required_hi: 0,
            optional_lo: 0,
            optional_hi: 0,
            abi_kind: ABI_KIND_DRIVER,
        }
    }

    /// Adds required features.
    pub fn require(self, feature: u64) -> (r: AbiNegotiator)
        ensures
            r@.required_lo == self@.required_lo | feature,
            r@.required_hi == self@.required_hi,
            r@.optional_lo == self@.optional_lo,
            r@.optional_hi == self@.optional_hi,
            r@.abi_kind == self@.abi_kind,
    {
        AbiNegotiator { required_lo: self.required_lo | feature, ..self }
    }

    /// Adds optional features.
    pub fn want(self, feature: u64) -> (r: AbiNegotiator)
        ensures
            r@.required_lo == self@.required_lo,
            r@.required_hi == self@.required_hi,
            r@.optional_lo == self@.optional_lo | feature,
            r@.optional_hi == self@.optional_hi,
            r@.abi_kind == self@.abi_kind,
    {
        AbiNegotiator { optional_lo: self.optional_lo | feature, ..self }
    }

    pub fn abi_kind(&self) -> (r: u8)
        ensures
            r == self@.abi_kind,
    {
        self.abi_kind
    }

    pub fn required_features(&self) -> (r: (u64, u64))
        ensures
            r == (self@.required_lo, self@.required_hi),
    {
        (self.required_lo, self.required_hi)
    }

    pub fn optional_features(&self) -> (r: (u64, u64))
        ensures
            r == (self@.optional_lo, self@.optional_hi),
    {
        (self.optional_lo, self.optional_hi)
    }

    /// The negotiation's outcome for the kernel's answer to this
    /// negotiator's request: a failed call is reported as such, and a reply
    /// is judged by `accept_reply`.
    pub fn negotiate(self, answer: Result<AbiReply, SyscallError>) -> (r: Result<
        NegotiatedFeatures,
        AbiError,
    >)
        ensures
            r == match answer {
                Err(e) => Err::<NegotiatedFeatures, AbiError>(AbiError::Syscall(e)),
                Ok(reply) => spec_negotiation(self@, reply),
            },
    {
        match answer {
            Err(e) => Err(AbiError::Syscall(e)),
            Ok(reply) => self.accept_reply(&reply),
        }
    }

    /// Judges the kernel's reply to this negotiator's request.
    pub fn accept_reply(&self, reply: &AbiReply) -> (r: Result<NegotiatedFeatures, AbiError>)
        ensures
            r == spec_negotiation(self@, *reply),
    {
        if reply.status != 0 || reply.features_lo_granted & !(self.required_lo | self.optional_lo)
            != 0 || reply.features_hi_granted & !(self.required_hi | self.optional_hi) != 0 {
            return Err(AbiError::InvalidReply);
        }
        let missing_lo = self.required_lo & !reply.features_lo_granted;
        let missing_hi = self.required_hi & !reply.features_hi_granted;
        if missing_lo != 0 || missing_hi != 0 {
            return Err(AbiError::RequiredFeatureMissing { missing_lo, missing_hi });
        }
        Ok(
            NegotiatedFeatures {
                granted_lo: reply.features_lo_granted,
                granted_hi: reply.features_hi_granted,
                unavailable_lo: reply.features_lo_unavailable,
                unavailable_hi: reply.features_hi_unavailable,
            },
        )
    }
}

/// An accepted negotiation grants every required feature and nothing that
/// was neither required nor wanted.
pub proof fn lemma_negotiation_grants_exactly(n: NegotiatorView, reply: AbiReply)
    requires
        spec_negotiation(n, reply) is Ok,
    ensures
        ({
            let f = spec_negotiation(n, reply)->Ok_0;
            &&& f.granted_lo & n.required_lo == n.required_lo
            &&& f.granted_hi & n.required_hi == n.required_hi
            &&& f.granted_lo & (n.required_lo | n.optional_lo) == f.granted_lo
            &&& f.granted_hi & (n.required_hi | n.optional_hi) == f.granted_hi
        }),
{
    let gl = reply.features_lo_granted;
    let gh = reply.features_hi_granted;
    let (rl, rh, ol, oh) = (n.required_lo, n.required_hi, n.optional_lo, n.optional_hi);
    assert(rl & !gl == 0 ==> gl & rl == rl) by (bit_vector);
    assert(rh & !gh == 0 ==> gh & rh == rh) by (bit_vector);
    assert(gl & !(rl | ol) == 0 ==> gl & (rl | ol) == gl) by (bit_vector);
    assert(gh & !(rh | oh) == 0 ==> gh & (rh | oh) == gh) by (bit_vector);
}

/// A refusal for missing features names exactly the required features that
/// were not granted.
pub proof fn lemma_missing_features_are_required(n: NegotiatorView, reply: AbiReply)
    requires
        spec_negotiation(n, reply) is Err,
        spec_negotiation(n, reply)->Err_0 is RequiredFeatureMissing,
    ensures
        ({
            let e = spec_negotiation(n, reply)->Err_0;
            &&& e->missing_lo & n.required_lo == e->missing_lo
            &&& e->missing_lo & reply.features_lo_granted == 0
            &&& e->missing_hi & n.required_hi == e->missing_hi
            &&& e->missing_hi & reply.features_hi_granted == 0
            &&& e->missing_lo != 0 || e->missing_hi != 0
        }),
{
    let gl = reply.features_lo_granted;
    let gh = reply.features_hi_granted;
    let (rl, rh) = (n.required_lo, n.required_hi);
    assert((rl & !gl) & rl == rl & !gl) by (bit_vector);
    assert((rl & !gl) & gl == 0) by (bit_vector);
    assert((rh & !gh) & rh == rh & !gh) by (bit_vector);
    assert((rh & !gh) & gh == 0) by (bit_vector);
}

#[derive(Clone, Copy, Debug, PartialEq, Eq, Structural)]
pub enum KairosBootError {
    Abi(AbiError),
    Topology(KairosError),
}

/// The results of process start-up: the validated topology and the
/// negotiated features.
pub struct KairosInit {
    pub topology: TopologySnapshot,
    pub features: NegotiatedFeatures,
}

// ---------------------------------------------------------------------------
// Cursors

/// A cursor over the enabled CPUs of one NUMA domain.
pub struct NucleusCpuIter<'a> {
    snapshot: &'a TopologySnapshot,
    domain_id: u16,
    index: usize,
}

impl<'a> NucleusCpuIter<'a> {
    #[verifier::type_invariant]
    closed spec fn cursor_wf(self) -> bool {
        self.index <= self.snapshot@.cpus.len()
    }

    /// The CPUs still to come.
    pub closed spec fn remaining(&self) -> Seq<CpuDescriptor> {
        self.snapshot@.cpus.skip(self.index as int).filter(enabled_in_domain(self.domain_id))
    }

    /// The next enabled CPU of the domain, if any.
    pub fn next(&mut self) -> (r: Option<CpuDescriptor>)
        ensures
            old(self).remaining().len() == 0 ==> r is None && final(self).remaining().len() == 0,
            old(self).remaining().len() > 0 ==> r == Some(old(self).remaining()[0])
                && final(self).remaining() == old(self).remaining().drop_first(),
    {
        proof {
            use_type_invariant(&*self);
        }
        let ghost keep = enabled_in_domain(self.domain_id);
        let ghost cpus = self.snapshot@.cpus;
        let ghost start = self.index as int;
        let cpu_table = self.snapshot.cpus();
        while self.index < cpu_table.len()
            invariant
                cpu_table@ == cpus,
                cpus == self.snapshot@.cpus,
                keep == enabled_in_domain(self.domain_id),
                start <= self.index <= cpus.len(),
                self.snapshot == old(self).snapshot,
                self.domain_id == old(self).domain_id,
                start == old(self).index,
                cpus.skip(start).filter(keep) == cpus.skip(self.index as int).filter(keep),
            decreases cpus.len() - self.index,
        {
            let cpu = cpu_table[self.index];
            let ghost at = self.index as int;
            proof {
                let rest = cpus.skip(at + 1);
                assert(cpus.skip(at) =~= seq![cpu] + rest);
                Seq::filter_distributes_over_add(seq![cpu], rest, keep);
                reveal_with_fuel(Seq::<_>::filter, 2);
                assert(seq![cpu].drop_last() =~= Seq::<CpuDescriptor>::empty());
            }
            self.index = self.index + 1;
            if cpu.enabled && cpu.numa_domain == self.domain_id {
                proof {
                    assert(keep(cpu));
                    assert(seq![cpu].filter(keep) =~= seq![cpu]);
                    assert((seq![cpu] + cpus.skip(at + 1).filter(keep)).drop_first()
                        =~= cpus.skip(at + 1).filter(keep));
                }
                return Some(cpu);
            }
            proof {
                assert(!keep(cpu));
                assert(seq![cpu].filter(keep) =~= Seq::<CpuDescriptor>::empty());
                assert(Seq::<CpuDescriptor>::empty() + cpus.skip(at + 1).filter(keep)
                    =~= cpus.skip(at + 1).filter(keep));
            }
        }
        proof {
            assert(cpus.skip(self.index as int) =~= Seq::<CpuDescriptor>::empty());
            reveal_with_fuel(Seq::<_>::filter, 1);
        }
        None
    }
}

/// A cursor over the domains of a snapshot.
pub struct DomainIterator<'a> {
    snapshot: &'a TopologySnapshot,
    index: usize,
}

impl<'a> DomainIterator<'a> {
    #[verifier::type_invariant]
    closed spec fn cursor_wf(self) -> bool {
        self.index <= self.snapshot@.domains.len()
    }

    /// The domains still to come.
    pub closed spec fn remaining(&self) -> Seq<DomainView> {
        self.snapshot@.domains.skip(self.index as int)
    }

    /// The next domain, if any.
    pub fn next(&mut self) -> (r: Option<&'a DomainDescriptor>)
        ensures
            old(self).remaining().len() == 0 ==> r is None && final(self).remaining().len() == 0,
            old(self).remaining().len() > 0 ==> r is Some && r->Some_0@ == old(
                self,
            ).remaining()[0] && final(self).remaining() == old(self).remaining().drop_first(),
    {
        proof {
            use_type_invariant(&*self);
        }
        let domains = self.snapshot.domains();
        if self.index >= domains.len() {
            return None;
        }
        let domain = &domains[self.index];
        self.index = self.index + 1;
        assert(self.snapshot@.domains.skip(self.index as int) =~= old(
            self,
        ).snapshot@.domains.skip(old(self).index as int).drop_first());
        Some(domain)
    }
}

} // verus!
