use vstd::prelude::*;
use vstd::string::StringExecFns;
use crate::memory::{is_rounded_gib, rounded_gib};
use crate::ranking::{Adapter, bucket, rank_adapters, ranked};

verus! {

/// Placeholder for a CPU whose brand the host does not report.
pub const UNKNOWN_CPU: &'static str = "Unknown CPU";

/// Placeholder for a missing host name.
pub const UNKNOWN_HOST_NAME: &'static str = "Unknown Host Name";

/// Placeholder for a missing operating-system name.
pub const UNKNOWN_OS: &'static str = "Unknown OS";

/// Placeholder for a missing operating-system version.
pub const UNKNOWN_OS_VERSION: &'static str = "Unknown OS Version";

/// Placeholder for a missing kernel version.
pub const UNKNOWN_KERNEL_VERSION: &'static str = "Unknown Kernel Version";

/// One disk volume as the host reports it.
pub struct DiskFacts {
    pub name: String,
    pub file_system: String,
    pub total_space: u64,
    pub available_space: u64,
}

/// The raw facts the host reports about itself; each optional fact may be
/// missing.
pub struct HostFacts {
    pub cpu_brands: Vec<String>,
    pub total_memory: u64,
    pub host_name: Option<String>,
    pub os_name: Option<String>,
    pub os_version: Option<String>,
    pub kernel_version: Option<String>,
    pub architecture: String,
    pub disks: Vec<DiskFacts>,
}

/// A graphics adapter in a report.
pub struct GraphicsComponent {
    pub name: String,
    pub vendor: String,
    pub vram: u64,
}

/// A disk volume in a report.
pub struct StorageComponent {
    pub name: String,
    pub file_system: String,
    pub total_space: u64,
    pub used_space: u64,
}

/// Why a report could not be built.
#[derive(Clone, Copy, Debug, PartialEq, Eq, Structural)]
pub enum ReportError {
    /// The graphics API reported no adapter at all.
    NoAdapterFound,
    /// A provider of host facts or of adapters could not be set up.
    ProviderUnavailable,
}

/// The normalised snapshot of a host. The first graphics component is the
/// primary adapter.
pub struct SystemInfo {
    pub cpu_name: String,
    pub total_memory: u64,
    pub host_name: String,
    pub os_name: String,
    pub os_version: String,
    pub os_kernel_version: String,
    pub os_architecture: String,
    pub graphic_components: Vec<GraphicsComponent>,
    pub storage_components: Vec<StorageComponent>,
}

/// What a graphics component holds, with its strings as character sequences.
pub struct GraphicsView {
    pub name: Seq<char>,
    pub vendor: Seq<char>,
    pub vram: u64,
}

/// What a storage component holds, with its strings as character sequences.
pub struct StorageView {
    pub name: Seq<char>,
    pub file_system: Seq<char>,
    pub total_space: u64,
    pub used_space: u64,
}

/// What a report holds, with its strings as character sequences.
pub struct SystemInfoView {
    pub cpu_name: Seq<char>,
    pub total_memory: u64,
    pub host_name: Seq<char>,
    pub os_name: Seq<char>,
    pub os_version: Seq<char>,
    pub os_kernel_version: Seq<char>,
    pub os_architecture: Seq<char>,
    pub graphic_components: Seq<GraphicsView>,
    pub storage_components: Seq<StorageView>,
}

impl View for GraphicsComponent {
    type V = GraphicsView;

    open spec fn view(&self) -> GraphicsView {
        GraphicsView { name: self.name@, vendor: self.vendor@, vram: self.vram }
    }
}

impl View for StorageComponent {
    type V = StorageView;

    open spec fn view(&self) -> StorageView {
        StorageView {
            name: self.name@,
            file_system: self.file_system@,
            total_space: self.total_space,
            used_space: self.used_space,
        }
    }
}

impl View for SystemInfo {
    type V = SystemInfoView;

    open spec fn view(&self) -> SystemInfoView {
        SystemInfoView {
            cpu_name: self.cpu_name@,
            total_memory: self.total_memory,
            host_name: self.host_name@,
            os_name: self.os_name@,
            os_version: self.os_version@,
            os_kernel_version: self.os_kernel_version@,
            os_architecture: self.os_architecture@,
            graphic_components: self.graphic_components@.map_values(|g: GraphicsComponent| g@),
            storage_components: self.storage_components@.map_values(|c: StorageComponent| c@),
        }
    }
}

/// The brand of the first CPU, or the placeholder when there is none.
pub open spec fn cpu_name_of(brands: Seq<String>) -> Seq<char> {
    if brands.len() == 0 {
        UNKNOWN_CPU@
    } else {
        brands[0]@
    }
}

/// The reported value, or `fallback` when it is missing.
pub open spec fn fact_or_of(value: Option<String>, fallback: Seq<char>) -> Seq<char> {
    match value {
        Some(s) => s@,
        None => fallback,
    }
}

/// Space in use on a volume: its capacity less what is available, or zero
/// where the host reports more available than the capacity.
pub open spec fn used_space_of(total: u64, available: u64) -> u64 {
    if available <= total {
        (total - available) as u64
    } else {
        0
    }
}

/// The storage component that a disk's facts give.
pub open spec fn storage_view_of(d: DiskFacts) -> StorageView {
    StorageView {
        name: d.name@,
        file_system: d.file_system@,
        total_space: d.total_space,
        used_space: used_space_of(d.total_space, d.available_space),
    }
}

/// The graphics component that an adapter gives.
pub open spec fn graphics_view_of(a: Adapter) -> GraphicsView {
    GraphicsView { name: a.name@, vendor: a.vendor@, vram: a.vram }
}

/// The report that `facts` and the adapter list `adapters` describe.
pub open spec fn report_of(facts: HostFacts, adapters: Seq<Adapter>) -> SystemInfoView {
    SystemInfoView {
        cpu_name: cpu_name_of(facts.cpu_brands@),
        total_memory: facts.total_memory,
        host_name: fact_or_of(facts.host_name, UNKNOWN_HOST_NAME@),
        os_name: fact_or_of(facts.os_name, UNKNOWN_OS@),
        os_version: fact_or_of(facts.os_version, UNKNOWN_OS_VERSION@),
        os_kernel_version: fact_or_of(facts.kernel_version, UNKNOWN_KERNEL_VERSION@),
        os_architecture: facts.architecture@,
        graphic_components: ranked(adapters).map_values(|a: Adapter| graphics_view_of(a)),
        storage_components: facts.disks@.map_values(|d: DiskFacts| storage_view_of(d)),
    }
}

/// The CPU name of a report: the first brand, or "Unknown CPU".
pub fn cpu_name(cpu_brands: &Vec<String>) -> (r: String)
    ensures
        r@ == cpu_name_of(cpu_brands@),
{
    if cpu_brands.len() > 0 {
        cpu_brands[0].clone()
    } else {
        String::from_str(UNKNOWN_CPU)
    }
}

/// The reported value, or `fallback` when it is missing.
pub fn fact_or(value: Option<String>, fallback: &str) -> (r: String)
    ensures
        r@ == fact_or_of(value, fallback@),
{
    match value {
        Some(s) => s,
        None => String::from_str(fallback),
    }
}

/// Space in use on a volume of capacity `total` with `available` bytes free.
pub fn used_space(total: u64, available: u64) -> (r: u64)
    ensures
        r == used_space_of(total, available),
{
    if available <= total {
        total - available
    } else {
        0
    }
}

/// One storage component per disk, in the order given, none left out.
pub fn storage_components(disks: Vec<DiskFacts>) -> (r: Vec<StorageComponent>)
    ensures
        r@.map_values(|c: StorageComponent| c@) == disks@.map_values(
            |d: DiskFacts| storage_view_of(d),
        ),
{
    let ghost orig = disks@;
    let mut rest = disks;
    let mut out: Vec<StorageComponent> = Vec::new();
    while rest.len() > 0
        invariant
            out@.len() + rest@.len() == orig.len(),
            rest@ == orig.subrange(out@.len() as int, orig.len() as int),
            forall|i: int| 0 <= i < out@.len() ==> #[trigger] out@[i]@ == storage_view_of(orig[i]),
        decreases rest.len(),
    {
        let d = rest.remove(0);
        let used = used_space(d.total_space, d.available_space);
        out.push(
            StorageComponent {
                name: d.name,
                file_system: d.file_system,
                total_space: d.total_space,
                used_space: used,
            },
        );
        assert(rest@ =~= orig.subrange(out@.len() as int, orig.len() as int));
    }
    assert(out@.map_values(|c: StorageComponent| c@) =~= orig.map_values(
        |d: DiskFacts| storage_view_of(d),
    ));
    out
}

/// One graphics component per adapter, in the order given.
pub fn graphics_components(adapters: Vec<Adapter>) -> (r: Vec<GraphicsComponent>)
    ensures
        r@.map_values(|g: GraphicsComponent| g@) == adapters@.map_values(
            |a: Adapter| graphics_view_of(a),
        ),
{
    let ghost orig = adapters@;
    let mut rest = adapters;
    let mut out: Vec<GraphicsComponent> = Vec::new();
    while rest.len() > 0
        invariant
            out@.len() + rest@.len() == orig.len(),
            rest@ == orig.subrange(out@.len() as int, orig.len() as int),
            forall|i: int| 0 <= i < out@.len() ==> #[trigger] out@[i]@ == graphics_view_of(orig[i]),
        decreases rest.len(),
    {
        let a = rest.remove(0);
        out.push(GraphicsComponent { name: a.name, vendor: a.vendor, vram: a.vram });
        assert(rest@ =~= orig.subrange(out@.len() as int, orig.len() as int));
    }
    assert(out@.map_values(|g: GraphicsComponent| g@) =~= orig.map_values(
        |a: Adapter| graphics_view_of(a),
    ));
    out
}

/// Builds the report from the host's facts and the adapters the graphics
/// API enumerated. Fails with `NoAdapterFound` exactly when there is no
/// adapter; missing optional facts are replaced by their placeholders.
pub fn build_report(facts: HostFacts, adapters: Vec<Adapter>) -> (r: Result<SystemInfo, ReportError>)
    ensures
        r is Err <==> adapters@.len() == 0,
        r is Err ==> r == Err::<SystemInfo, ReportError>(ReportError::NoAdapterFound),
        r matches Ok(info) ==> info@ == report_of(facts, adapters@),
{
    if adapters.len() == 0 {
        return Err(ReportError::NoAdapterFound);
    }
    let ghost listed = adapters@;
    let HostFacts {
        cpu_brands,
        total_memory,
        host_name,
        os_name,
        os_version,
        kernel_version,
        architecture,
        disks,
    } = facts;
    let cpu = cpu_name(&cpu_brands);
    let host = fact_or(host_name, UNKNOWN_HOST_NAME);
    let os = fact_or(os_name, UNKNOWN_OS);
    let version = fact_or(os_version, UNKNOWN_OS_VERSION);
    let kernel = fact_or(kernel_version, UNKNOWN_KERNEL_VERSION);
    let graphics = graphics_components(rank_adapters(adapters));
    let storage = storage_components(disks);
    let info = SystemInfo {
        cpu_name: cpu,
        total_memory,
        host_name: host,
        os_name: os,
        os_version: version,
        os_kernel_version: kernel,
        os_architecture: architecture,
        graphic_components: graphics,
        storage_components: storage,
    };
    assert(info@ =~= report_of(facts, listed));
    Ok(info)
}

/// The characters of an optional string.
pub open spec fn opt_view(o: Option<String>) -> Option<Seq<char>> {
    match o {
        Some(s) => Some(s@),
        None => None,
    }
}

/// Two snapshots of an unchanged host: the same facts, except for the space
/// available on each volume, which varies over time.
pub open spec fn same_host(f1: HostFacts, f2: HostFacts) -> bool {
    &&& f1.cpu_brands@.len() == f2.cpu_brands@.len()
    &&& forall|i: int|
        0 <= i < f1.cpu_brands@.len() ==> #[trigger] f1.cpu_brands@[i]@ == f2.cpu_brands@[i]@
    &&& f1.total_memory == f2.total_memory
    &&& opt_view(f1.host_name) == opt_view(f2.host_name)
    &&& opt_view(f1.os_name) == opt_view(f2.os_name)
    &&& opt_view(f1.os_version) == opt_view(f2.os_version)
    &&& opt_view(f1.kernel_version) == opt_view(f2.kernel_version)
    &&& f1.architecture@ == f2.architecture@
    &&& f1.disks@.len() == f2.disks@.len()
    &&& forall|i: int|
        0 <= i < f1.disks@.len() ==> {
            &&& #[trigger] f1.disks@[i].name@ == f2.disks@[i].name@
            &&& f1.disks@[i].file_system@ == f2.disks@[i].file_system@
            &&& f1.disks@[i].total_space == f2.disks@[i].total_space
        }
}

/// Two adapter lists that agree, position by position, on everything an
/// adapter carries.
pub open spec fn same_adapters(a1: Seq<Adapter>, a2: Seq<Adapter>) -> bool {
    &&& a1.len() == a2.len()
    &&& forall|i: int|
        0 <= i < a1.len() ==> {
            &&& #[trigger] graphics_view_of(a1[i]) == graphics_view_of(a2[i])
            &&& a1[i].device_type == a2[i].device_type
        }
}

/// Two reports that agree on every field but the space in use on each
/// volume.
pub open spec fn same_structure(v1: SystemInfoView, v2: SystemInfoView) -> bool {
    &&& v1.cpu_name == v2.cpu_name
    &&& v1.total_memory == v2.total_memory
    &&& v1.host_name == v2.host_name
    &&& v1.os_name == v2.os_name
    &&& v1.os_version == v2.os_version
    &&& v1.os_kernel_version == v2.os_kernel_version
    &&& v1.os_architecture == v2.os_architecture
    &&& v1.graphic_components == v2.graphic_components
    &&& v1.storage_components.len() == v2.storage_components.len()
    &&& forall|i: int|
        0 <= i < v1.storage_components.len() ==> {
            &&& #[trigger] v1.storage_components[i].name == v2.storage_components[i].name
            &&& v1.storage_components[i].file_system == v2.storage_components[i].file_system
            &&& v1.storage_components[i].total_space == v2.storage_components[i].total_space
        }
}

proof fn lemma_same_adapters_bucket(a1: Seq<Adapter>, a2: Seq<Adapter>, r: nat)
    requires
        same_adapters(a1, a2),
    ensures
        same_adapters(bucket(a1, r), bucket(a2, r)),
    decreases a1.len(),
{
    if a1.len() > 0 {
        let last = a1.len() - 1;
        assert(graphics_view_of(a1[last]) == graphics_view_of(a2[last]));
        let d1 = a1.drop_last();
        let d2 = a2.drop_last();
        assert forall|i: int| 0 <= i < d1.len() implies {
            &&& #[trigger] graphics_view_of(d1[i]) == graphics_view_of(d2[i])
            &&& d1[i].device_type == d2[i].device_type
        } by {
            assert(d1[i] == a1[i] && d2[i] == a2[i]);
            assert(graphics_view_of(a1[i]) == graphics_view_of(a2[i]));
        }
        assert(same_adapters(d1, d2));
        lemma_same_adapters_bucket(d1, d2, r);
        let p1 = bucket(d1, r);
        let p2 = bucket(d2, r);
        let q1 = bucket(a1, r);
        let q2 = bucket(a2, r);
        assert forall|i: int| 0 <= i < q1.len() implies {
            &&& #[trigger] graphics_view_of(q1[i]) == graphics_view_of(q2[i])
            &&& q1[i].device_type == q2[i].device_type
        } by {
            if i < p1.len() {
                assert(graphics_view_of(p1[i]) == graphics_view_of(p2[i]));
            }
        }
    }
}

proof fn lemma_same_adapters_append(x1: Seq<Adapter>, y1: Seq<Adapter>, x2: Seq<Adapter>, y2: Seq<Adapter>)
    requires
        same_adapters(x1, x2),
        same_adapters(y1, y2),
    ensures
        same_adapters(x1 + y1, x2 + y2),
{
    let c1 = x1 + y1;
    let c2 = x2 + y2;
    assert forall|i: int| 0 <= i < c1.len() implies {
        &&& #[trigger] graphics_view_of(c1[i]) == graphics_view_of(c2[i])
        &&& c1[i].device_type == c2[i].device_type
    } by {
        if i < x1.len() {
            assert((x1 + y1)[i] == x1[i] && (x2 + y2)[i] == x2[i]);
            assert(graphics_view_of(x1[i]) == graphics_view_of(x2[i]));
        } else {
            let k = i - x1.len();
            assert((x1 + y1)[i] == y1[k] && (x2 + y2)[i] == y2[k]);
            assert(graphics_view_of(y1[k]) == graphics_view_of(y2[k]));
        }
    }
}

/// Building the report twice on an unchanged host gives the same report,
/// up to the space in use on each volume: the same CPU name, memory, OS
/// identity and the same ranked adapters.
pub proof fn lemma_report_repeatable(f1: HostFacts, f2: HostFacts, a1: Seq<Adapter>, a2: Seq<Adapter>)
    requires
        same_host(f1, f2),
        same_adapters(a1, a2),
    ensures
        same_structure(report_of(f1, a1), report_of(f2, a2)),
{
    let v1 = report_of(f1, a1);
    let v2 = report_of(f2, a2);
    if f1.cpu_brands@.len() > 0 {
        assert(f1.cpu_brands@[0]@ == f2.cpu_brands@[0]@);
    }
    lemma_same_adapters_bucket(a1, a2, 0);
    lemma_same_adapters_bucket(a1, a2, 1);
    lemma_same_adapters_bucket(a1, a2, 2);
    lemma_same_adapters_bucket(a1, a2, 3);
    lemma_same_adapters_bucket(a1, a2, 4);
    lemma_same_adapters_append(bucket(a1, 0), bucket(a1, 1), bucket(a2, 0), bucket(a2, 1));
    lemma_same_adapters_append(
        bucket(a1, 0) + bucket(a1, 1),
        bucket(a1, 2),
        bucket(a2, 0) + bucket(a2, 1),
        bucket(a2, 2),
    );
    lemma_same_adapters_append(
        bucket(a1, 0) + bucket(a1, 1) + bucket(a1, 2),
        bucket(a1, 3),
        bucket(a2, 0) + bucket(a2, 1) + bucket(a2, 2),
        bucket(a2, 3),
    );
    lemma_same_adapters_append(
        bucket(a1, 0) + bucket(a1, 1) + bucket(a1, 2) + bucket(a1, 3),
        bucket(a1, 4),
        bucket(a2, 0) + bucket(a2, 1) + bucket(a2, 2) + bucket(a2, 3),
        bucket(a2, 4),
    );
    let r1 = ranked(a1);
    let r2 = ranked(a2);
    assert forall|i: int| 0 <= i < r1.len() implies #[trigger] v1.graphic_components[i]
        == v2.graphic_components[i] by {
        assert(graphics_view_of(r1[i]) == graphics_view_of(r2[i]));
    }
    assert(v1.graphic_components =~= v2.graphic_components);
    assert forall|i: int| 0 <= i < v1.storage_components.len() implies {
        &&& #[trigger] v1.storage_components[i].name == v2.storage_components[i].name
        &&& v1.storage_components[i].file_system == v2.storage_components[i].file_system
        &&& v1.storage_components[i].total_space == v2.storage_components[i].total_space
    } by {
        assert(f1.disks@[i].name@ == f2.disks@[i].name@);
    }
}

impl SystemInfo {
    /// The primary graphics adapter: the first after ranking.
    pub fn primary_graphics(&self) -> (g: &GraphicsComponent)
        requires
            self.graphic_components@.len() > 0,
        ensures
            *g == self.graphic_components@[0],
    {
        &self.graphic_components[0]
    }

    /// Total memory in whole gibibytes, rounded to the nearest.
    pub fn total_memory_gib(&self) -> (g: u64)
        ensures
            is_rounded_gib(self.total_memory as nat, g as nat),
    {
        rounded_gib(self.total_memory)
    }
}

} // verus!
