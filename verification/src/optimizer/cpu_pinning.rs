//! CPU Topology-Aware Core Allocation and SMT Pinning Engine.

use crate::error::{ClerestoryError, Result};
use crate::model::host::{CacheDomain, CorePair, CoreType, CpuTopology};
use crate::model::vm::{CpuPinningMap, OptimizationProfile};
use vstd::prelude::*;

verus! {

/// Which core pairs contribute their threads.
#[derive(Clone, Copy, PartialEq, Eq, Structural)]
pub enum PairSelection {
    All,
    PerformanceOnly,
    NonPerformance,
}

pub open spec fn selects(sel: PairSelection, p: CorePair) -> bool {
    match sel {
        PairSelection::All => true,
        PairSelection::PerformanceOnly => p.core_type == CoreType::Performance,
        PairSelection::NonPerformance => p.core_type != CoreType::Performance,
    }
}

/// The thread ids of the selected pairs, pair by pair, in order.
pub open spec fn pair_threads(pairs: Seq<CorePair>, sel: PairSelection) -> Seq<u32>
    decreases pairs.len(),
{
    if pairs.len() == 0 {
        Seq::empty()
    } else {
        pair_threads(pairs.drop_last(), sel)
            + if selects(sel, pairs.last()) { pairs.last().thread_ids@ } else { Seq::empty() }
    }
}

/// The thread ids of the selected pairs of every domain, domain by domain.
pub open spec fn domains_threads(doms: Seq<CacheDomain>, sel: PairSelection) -> Seq<u32>
    decreases doms.len(),
{
    if doms.len() == 0 {
        Seq::empty()
    } else {
        domains_threads(doms.drop_last(), sel) + pair_threads(doms.last().core_pairs@, sel)
    }
}

/// All hardware threads of a cache domain, core pair by core pair.
pub open spec fn domain_threads(d: CacheDomain) -> Seq<u32> {
    pair_threads(d.core_pairs@, PairSelection::All)
}

/// The host CPUs that a list of pins occupies.
pub open spec fn hosts(pins: Seq<(u32, u32)>) -> Seq<u32> {
    pins.map_values(|p: (u32, u32)| p.1)
}

/// vCPU `k` pinned to the `k`-th candidate, for as many candidates as requested.
pub open spec fn enumerate_prefix(cands: Seq<u32>, requested: u32) -> Seq<(u32, u32)> {
    let n = if cands.len() < requested { cands.len() } else { requested as nat };
    Seq::new(n, |k: int| (k as u32, cands[k]))
}

/// Greedy continuation: each candidate not yet used takes the next vCPU until
/// `requested` vCPUs are pinned.
pub open spec fn fill(pins: Seq<(u32, u32)>, cands: Seq<u32>, requested: u32) -> Seq<(u32, u32)>
    decreases cands.len(),
{
    if cands.len() == 0 {
        pins
    } else {
        let q = fill(pins, cands.drop_last(), requested);
        let x = cands.last();
        if q.len() < requested && !hosts(q).contains(x) {
            q.push((q.len() as u32, x))
        } else {
            q
        }
    }
}

/// The candidates that are not in `used`, in order.
pub open spec fn excluding(cands: Seq<u32>, used: Seq<u32>) -> Seq<u32>
    decreases cands.len(),
{
    if cands.len() == 0 {
        Seq::empty()
    } else if used.contains(cands.last()) {
        excluding(cands.drop_last(), used)
    } else {
        excluding(cands.drop_last(), used).push(cands.last())
    }
}

/// The CPU numbers below `n` that are not in `used`, ascending.
pub open spec fn free_below(n: nat, used: Seq<u32>) -> Seq<u32>
    decreases n,
{
    if n == 0 {
        Seq::empty()
    } else if used.contains((n - 1) as u32) {
        free_below((n - 1) as nat, used)
    } else {
        free_below((n - 1) as nat, used).push((n - 1) as u32)
    }
}

/// Emulator pin: the first helper CPU, or CPU 0 when there is none.
pub open spec fn emulator_choice(helpers: Seq<u32>) -> Seq<u32> {
    if helpers.len() == 0 { seq![0u32] } else { seq![helpers[0]] }
}

/// IOThread pin: the second helper CPU, or the emulator pin when there is none.
pub open spec fn iothread_choice(helpers: Seq<u32>) -> Seq<u32> {
    if helpers.len() > 1 { seq![helpers[1]] } else { emulator_choice(helpers) }
}

/// Helper CPUs: the given candidates, or, when there are none and the host is
/// to be isolated, every CPU below `total_threads` not pinned to a vCPU.
pub open spec fn helper_cpus(cands: Seq<u32>, isolate_host: bool, total_threads: u32, pins: Seq<(u32, u32)>) -> Seq<u32> {
    if cands.len() == 0 && isolate_host {
        free_below(total_threads as nat, hosts(pins))
    } else {
        cands
    }
}

/// The sort key of a domain under a profile; domains are ordered by ascending key,
/// stably. Gaming puts 3D V-Cache domains first, Compute puts them last, Auto
/// orders by descending L3 size.
pub open spec fn domain_key(profile: OptimizationProfile, d: CacheDomain) -> u64 {
    match profile {
        OptimizationProfile::Gaming => if d.has_3d_vcache { 0 } else { 1 },
        OptimizationProfile::Compute => if d.has_3d_vcache { 1 } else { 0 },
        OptimizationProfile::Auto => (u64::MAX - d.size_bytes) as u64,
    }
}

/// Where a domain with key `k` goes in a sorted sequence: after every element
/// whose key is at most `k`.
pub open spec fn insert_pos(profile: OptimizationProfile, s: Seq<CacheDomain>, k: u64) -> nat
    decreases s.len(),
{
    if s.len() == 0 {
        0
    } else if domain_key(profile, s[0]) > k {
        0
    } else {
        1 + insert_pos(profile, s.drop_first(), k)
    }
}

/// Stable sort of the domains by `domain_key` (insertion of each domain in turn).
pub open spec fn sort_domains(profile: OptimizationProfile, doms: Seq<CacheDomain>) -> Seq<CacheDomain>
    decreases doms.len(),
{
    if doms.len() == 0 {
        Seq::empty()
    } else {
        let s = sort_domains(profile, doms.drop_last());
        s.insert(insert_pos(profile, s, domain_key(profile, doms.last())) as int, doms.last())
    }
}

/// Position of the first domain from `i` on that can hold `requested` vCPUs.
pub open spec fn first_fit_from(s: Seq<CacheDomain>, requested: u32, i: int) -> Option<int>
    decreases s.len() - i,
{
    if i < 0 || i >= s.len() {
        None
    } else if requested <= domain_threads(s[i]).len() {
        Some(i)
    } else {
        first_fit_from(s, requested, i + 1)
    }
}

/// The threads of the domains whose L3 id differs from `l3`, in order.
pub open spec fn other_domain_threads(s: Seq<CacheDomain>, l3: u32) -> Seq<u32>
    decreases s.len(),
{
    if s.len() == 0 {
        Seq::empty()
    } else {
        other_domain_threads(s.drop_last(), l3)
            + if s.last().l3_cache_id != l3 { domain_threads(s.last()) } else { Seq::empty() }
    }
}

/// The CPU ids of the domains whose L3 id differs from `l3`, in order.
pub open spec fn other_domain_cpus(s: Seq<CacheDomain>, l3: u32) -> Seq<u32>
    decreases s.len(),
{
    if s.len() == 0 {
        Seq::empty()
    } else {
        other_domain_cpus(s.drop_last(), l3)
            + if s.last().l3_cache_id != l3 { s.last().cpu_ids@ } else { Seq::empty() }
    }
}

/// A pinning plan: vCPU pins, emulator pins and IOThread pins.
pub struct PinPlan {
    pub vcpu_pins: Seq<(u32, u32)>,
    pub emulator_pins: Seq<u32>,
    pub iothread_pins: Seq<u32>,
}

pub open spec fn plan_of(pins: Seq<(u32, u32)>, helpers: Seq<u32>) -> PinPlan {
    PinPlan {
        vcpu_pins: pins,
        emulator_pins: emulator_choice(helpers),
        iothread_pins: iothread_choice(helpers),
    }
}

pub open spec fn matches_plan(m: CpuPinningMap, p: PinPlan) -> bool {
    &&& m.vcpu_pins@ == p.vcpu_pins
    &&& m.emulator_pins@ == p.emulator_pins
    &&& m.iothread_pins@ == p.iothread_pins
}

/// Hybrid plan (Intel P/E cores): vCPUs on P-core threads, helpers on the other cores.
/// `None` when the P-cores cannot hold the request.
pub open spec fn hybrid_plan(topo: CpuTopology, requested: u32, isolate_host: bool) -> Option<PinPlan> {
    let p = domains_threads(topo.cache_domains@, PairSelection::PerformanceOnly);
    let e = domains_threads(topo.cache_domains@, PairSelection::NonPerformance);
    if requested > p.len() {
        None
    } else {
        let pins = enumerate_prefix(p, requested);
        Some(plan_of(pins, helper_cpus(e, isolate_host, topo.total_threads, pins)))
    }
}

/// Position, in the sorted domains, of the primary domain: the first that fits,
/// else the first one. `None` when there are no domains.
pub open spec fn primary_pos(s: Seq<CacheDomain>, requested: u32) -> Option<int> {
    match first_fit_from(s, requested, 0) {
        Some(i) => Some(i),
        None => if s.len() > 0 { Some(0) } else { None },
    }
}

/// The vCPU pins of the cache-domain plan: the primary domain's threads first,
/// then those of the other domains not yet used, up to `requested`; `None`
/// when the host reports no cache domain.
pub open spec fn ccd_pins(topo: CpuTopology, requested: u32, profile: OptimizationProfile) -> Option<Seq<(u32, u32)>> {
    let s = sort_domains(profile, topo.cache_domains@);
    match primary_pos(s, requested) {
        None => None,
        Some(i) => {
            let prim = s[i];
            let pins1 = enumerate_prefix(domain_threads(prim), requested);
            Some(fill(pins1, other_domain_threads(s, prim.l3_cache_id), requested))
        },
    }
}

/// How many vCPUs the cache domains can take one-to-one, as a capacity error reports it.
pub open spec fn ccd_capacity(topo: CpuTopology, requested: u32, profile: OptimizationProfile) -> u32 {
    match ccd_pins(topo, requested, profile) {
        Some(pins) => pins.len() as u32,
        None => 0,
    }
}

/// Cache-domain plan: vCPUs fill the primary domain first, then spill over the
/// other domains; helpers are the other domains' CPUs left free. There is no
/// plan when the domains cannot give every requested vCPU a thread of its own.
pub open spec fn ccd_plan(topo: CpuTopology, requested: u32, profile: OptimizationProfile, isolate_host: bool) -> Option<PinPlan> {
    let s = sort_domains(profile, topo.cache_domains@);
    match primary_pos(s, requested) {
        None => None,
        Some(i) => {
            let prim = s[i];
            let pins1 = enumerate_prefix(domain_threads(prim), requested);
            let pins = fill(pins1, other_domain_threads(s, prim.l3_cache_id), requested);
            let free = excluding(other_domain_cpus(s, prim.l3_cache_id), hosts(pins));
            if pins.len() < requested {
                None
            } else {
                Some(plan_of(pins, helper_cpus(free, isolate_host, topo.total_threads, pins)))
            }
        },
    }
}

/// The P-core thread capacity of a topology, as the error reports it.
pub open spec fn p_capacity(topo: CpuTopology) -> u32 {
    domains_threads(topo.cache_domains@, PairSelection::PerformanceOnly).len() as u32
}

} // verus!

verus! {

fn keeps(sel: PairSelection, p: &CorePair) -> (b: bool)
    ensures
        b == selects(sel, *p),
{
    match sel {
        PairSelection::All => true,
        PairSelection::PerformanceOnly => p.core_type == CoreType::Performance,
        PairSelection::NonPerformance => p.core_type != CoreType::Performance,
    }
}

/// Appends every element of `v` to `out`.
fn append_u32s(out: &mut Vec<u32>, v: &Vec<u32>)
    ensures
        final(out)@ == old(out)@ + v@,
{
    let ghost start = out@;
    let mut i: usize = 0;
    while i < v.len()
        invariant
            i <= v.len(),
            out@ == start + v@.take(i as int),
        decreases v.len() - i,
    {
        out.push(v[i]);
        assert(start + v@.take(i + 1) =~= (start + v@.take(i as int)).push(v@[i as int]));
        i = i + 1;
    }
    assert(v@.take(v.len() as int) =~= v@);
}

/// Appends the thread ids of the selected pairs.
fn append_pair_threads(out: &mut Vec<u32>, pairs: &Vec<CorePair>, sel: PairSelection)
    ensures
        final(out)@ == old(out)@ + pair_threads(pairs@, sel),
{
    let ghost start = out@;
    let mut j: usize = 0;
    assert(pairs@.take(0) =~= Seq::<CorePair>::empty());
    assert(out@ =~= start + pair_threads(pairs@.take(0), sel));
    while j < pairs.len()
        invariant
            j <= pairs.len(),
            out@ == start + pair_threads(pairs@.take(j as int), sel),
        decreases pairs.len() - j,
    {
        let ghost before = out@;
        let p = &pairs[j];
        if keeps(sel, p) {
            append_u32s(out, &p.thread_ids);
        }
        assert(pairs@.take(j + 1).drop_last() =~= pairs@.take(j as int));
        assert(pairs@.take(j + 1).last() == pairs@[j as int]);
        assert(out@ =~= start + pair_threads(pairs@.take(j + 1), sel));
        j = j + 1;
    }
    assert(pairs@.take(pairs.len() as int) =~= pairs@);
}

/// The threads of the selected pairs of all domains.
fn selected_threads(doms: &Vec<CacheDomain>, sel: PairSelection) -> (r: Vec<u32>)
    ensures
        r@ == domains_threads(doms@, sel),
{
    let mut r: Vec<u32> = Vec::new();
    let mut i: usize = 0;
    assert(doms@.take(0) =~= Seq::<CacheDomain>::empty());
    while i < doms.len()
        invariant
            i <= doms.len(),
            r@ == domains_threads(doms@.take(i as int), sel),
        decreases doms.len() - i,
    {
        append_pair_threads(&mut r, &doms[i].core_pairs, sel);
        assert(doms@.take(i + 1).drop_last() =~= doms@.take(i as int));
        assert(doms@.take(i + 1).last() == doms@[i as int]);
        i = i + 1;
    }
    assert(doms@.take(doms.len() as int) =~= doms@);
    r
}

/// All threads of one domain.
fn threads_of(d: &CacheDomain) -> (r: Vec<u32>)
    ensures
        r@ == domain_threads(*d),
{
    let mut r: Vec<u32> = Vec::new();
    append_pair_threads(&mut r, &d.core_pairs, PairSelection::All);
    assert(r@ =~= domain_threads(*d));
    r
}

fn key_of(profile: OptimizationProfile, d: &CacheDomain) -> (k: u64)
    ensures
        k == domain_key(profile, *d),
{
    match profile {
        OptimizationProfile::Gaming => if d.has_3d_vcache { 0 } else { 1 },
        OptimizationProfile::Compute => if d.has_3d_vcache { 1 } else { 0 },
        OptimizationProfile::Auto => u64::MAX - d.size_bytes,
    }
}

/// The domains behind a vector of references.
pub open spec fn derefs(s: Seq<&CacheDomain>) -> Seq<CacheDomain> {
    s.map_values(|d: &CacheDomain| *d)
}

/// The domains in the order the profile prefers (stable by `domain_key`).
fn sorted_domains<'a>(doms: &'a Vec<CacheDomain>, profile: OptimizationProfile) -> (r: Vec<&'a CacheDomain>)
    ensures
        derefs(r@) == sort_domains(profile, doms@),
{
    let mut r: Vec<&'a CacheDomain> = Vec::new();
    let mut i: usize = 0;
    assert(doms@.take(0) =~= Seq::<CacheDomain>::empty());
    assert(derefs(r@) =~= sort_domains(profile, doms@.take(0)));
    while i < doms.len()
        invariant
            i <= doms.len(),
            derefs(r@) == sort_domains(profile, doms@.take(i as int)),
        decreases doms.len() - i,
    {
        let d = &doms[i];
        let k = key_of(profile, d);
        let ghost s = derefs(r@);
        let mut p: usize = 0;
        assert(s.skip(0) =~= s);
        while p < r.len() && key_of(profile, r[p]) <= k
            invariant
                p <= r.len(),
                s == derefs(r@),
                insert_pos(profile, s, k) == p + insert_pos(profile, s.skip(p as int), k),
            decreases r.len() - p,
        {
            assert(s.skip(p as int).drop_first() =~= s.skip(p + 1));
            p = p + 1;
        }
        proof {
            if p < r.len() {
                assert(s.skip(p as int)[0] == s[p as int]);
            }
        }
        r.insert(p, d);
        assert(doms@.take(i + 1).drop_last() =~= doms@.take(i as int));
        assert(doms@.take(i + 1).last() == doms@[i as int]);
        assert(derefs(r@) =~= s.insert(p as int, *d));
        i = i + 1;
    }
    assert(doms@.take(doms.len() as int) =~= doms@);
    r
}

/// Whether a host CPU is already pinned to a vCPU.
fn is_pinned(pins: &Vec<(u32, u32)>, x: u32) -> (b: bool)
    ensures
        b == hosts(pins@).contains(x),
{
    let mut i: usize = 0;
    while i < pins.len()
        invariant
            i <= pins.len(),
            forall|q: int| 0 <= q < i ==> pins@[q].1 != x,
        decreases pins.len() - i,
    {
        if pins[i].1 == x {
            assert(hosts(pins@)[i as int] == x);
            return true;
        }
        i = i + 1;
    }
    proof {
        if hosts(pins@).contains(x) {
            let q = choose|q: int| 0 <= q < hosts(pins@).len() && hosts(pins@)[q] == x;
            assert(pins@[q].1 == x);
        }
    }
    false
}

/// vCPU `k` on the `k`-th candidate, for as many candidates as requested.
fn pin_prefix(cands: &Vec<u32>, requested: u32) -> (pins: Vec<(u32, u32)>)
    ensures
        pins@ == enumerate_prefix(cands@, requested),
{
    let mut pins: Vec<(u32, u32)> = Vec::new();
    let mut k: usize = 0;
    while k < cands.len() && (k as u64) < (requested as u64)
        invariant
            k <= cands.len(),
            k <= requested,
            pins@ == Seq::new(k as nat, |q: int| (q as u32, cands@[q])),
        decreases cands.len() - k,
    {
        pins.push((k as u32, cands[k]));
        assert(pins@ =~= Seq::new((k + 1) as nat, |q: int| (q as u32, cands@[q])));
        k = k + 1;
    }
    assert(pins@ =~= enumerate_prefix(cands@, requested));
    pins
}

/// Continues `pins` greedily over `cands`.
fn fill_pins(pins: &mut Vec<(u32, u32)>, cands: &Vec<u32>, requested: u32)
    requires
        old(pins)@.len() <= requested,
    ensures
        final(pins)@ == fill(old(pins)@, cands@, requested),
        final(pins)@.len() <= requested,
{
    let ghost start = pins@;
    let mut i: usize = 0;
    assert(cands@.take(0) =~= Seq::<u32>::empty());
    while i < cands.len()
        invariant
            i <= cands.len(),
            pins@ == fill(start, cands@.take(i as int), requested),
            pins@.len() <= requested,
        decreases cands.len() - i,
    {
        let x = cands[i];
        assert(cands@.take(i + 1).drop_last() =~= cands@.take(i as int));
        assert(cands@.take(i + 1).last() == x);
        if (pins.len() as u64) < (requested as u64) && !is_pinned(pins, x) {
            let n = pins.len() as u32;
            pins.push((n, x));
        }
        i = i + 1;
    }
    assert(cands@.take(cands.len() as int) =~= cands@);
}

/// The candidates that no vCPU is pinned to, in order.
fn unpinned(cands: &Vec<u32>, pins: &Vec<(u32, u32)>) -> (r: Vec<u32>)
    ensures
        r@ == excluding(cands@, hosts(pins@)),
{
    let mut r: Vec<u32> = Vec::new();
    let mut i: usize = 0;
    assert(cands@.take(0) =~= Seq::<u32>::empty());
    while i < cands.len()
        invariant
            i <= cands.len(),
            r@ == excluding(cands@.take(i as int), hosts(pins@)),
        decreases cands.len() - i,
    {
        let x = cands[i];
        assert(cands@.take(i + 1).drop_last() =~= cands@.take(i as int));
        assert(cands@.take(i + 1).last() == x);
        if !is_pinned(pins, x) {
            r.push(x);
        }
        i = i + 1;
    }
    assert(cands@.take(cands.len() as int) =~= cands@);
    r
}

/// Helper CPUs: `cands`, or the free CPUs below `total` when there are none
/// and the host is isolated.
fn helpers_for(cands: Vec<u32>, isolate_host: bool, total: u32, pins: &Vec<(u32, u32)>) -> (r: Vec<u32>)
    ensures
        r@ == helper_cpus(cands@, isolate_host, total, pins@),
{
    if cands.len() == 0 && isolate_host {
        let mut r: Vec<u32> = Vec::new();
        let mut i: u32 = 0;
        while i < total
            invariant
                i <= total,
                r@ == free_below(i as nat, hosts(pins@)),
            decreases total - i,
        {
            if !is_pinned(pins, i) {
                r.push(i);
            }
            i = i + 1;
        }
        r
    } else {
        cands
    }
}

/// Builds the pinning map from the vCPU pins and the helper CPUs.
fn finish_plan(vcpu_pins: Vec<(u32, u32)>, helpers: &Vec<u32>) -> (m: CpuPinningMap)
    ensures
        matches_plan(m, plan_of(vcpu_pins@, helpers@)),
{
    let mut emulator_pins: Vec<u32> = Vec::new();
    if helpers.len() == 0 {
        emulator_pins.push(0);
    } else {
        emulator_pins.push(helpers[0]);
    }
    let mut iothread_pins: Vec<u32> = Vec::new();
    if helpers.len() > 1 {
        iothread_pins.push(helpers[1]);
    } else {
        iothread_pins.push(emulator_pins[0]);
    }
    assert(emulator_pins@ =~= emulator_choice(helpers@));
    assert(iothread_pins@ =~= iothread_choice(helpers@));
    CpuPinningMap { vcpu_pins, emulator_pins, iothread_pins }
}

} // verus!

verus! {

/// Position of the first domain that can hold `requested` vCPUs.
fn first_fit(sorted: &Vec<&CacheDomain>, requested: u32) -> (r: Option<usize>)
    ensures
        match (r, first_fit_from(derefs(sorted@), requested, 0)) {
            (Some(i), Some(j)) => i as int == j && i < sorted@.len(),
            (None, None) => true,
            _ => false,
        },
{
    let ghost s = derefs(sorted@);
    let mut i: usize = 0;
    while i < sorted.len()
        invariant
            i <= sorted.len(),
            s == derefs(sorted@),
            first_fit_from(s, requested, 0) == first_fit_from(s, requested, i as int),
        decreases sorted.len() - i,
    {
        let th = threads_of(sorted[i]);
        if (requested as usize) <= th.len() {
            return Some(i);
        }
        i = i + 1;
    }
    None
}

/// The threads of the domains whose L3 id is not `l3`, in sorted order.
fn other_threads(sorted: &Vec<&CacheDomain>, l3: u32) -> (r: Vec<u32>)
    ensures
        r@ == other_domain_threads(derefs(sorted@), l3),
{
    let ghost s = derefs(sorted@);
    let mut r: Vec<u32> = Vec::new();
    let mut i: usize = 0;
    assert(s.take(0) =~= Seq::<CacheDomain>::empty());
    while i < sorted.len()
        invariant
            i <= sorted.len(),
            s == derefs(sorted@),
            r@ == other_domain_threads(s.take(i as int), l3),
        decreases sorted.len() - i,
    {
        let d = sorted[i];
        if d.l3_cache_id != l3 {
            let th = threads_of(d);
            append_u32s(&mut r, &th);
        }
        assert(s.take(i + 1).drop_last() =~= s.take(i as int));
        assert(s.take(i + 1).last() == s[i as int]);
        assert(r@ =~= other_domain_threads(s.take(i + 1), l3));
        i = i + 1;
    }
    assert(s.take(sorted.len() as int) =~= s);
    r
}

/// The CPU ids of the domains whose L3 id is not `l3`, in sorted order.
fn other_cpus(sorted: &Vec<&CacheDomain>, l3: u32) -> (r: Vec<u32>)
    ensures
        r@ == other_domain_cpus(derefs(sorted@), l3),
{
    let ghost s = derefs(sorted@);
    let mut r: Vec<u32> = Vec::new();
    let mut i: usize = 0;
    assert(s.take(0) =~= Seq::<CacheDomain>::empty());
    while i < sorted.len()
        invariant
            i <= sorted.len(),
            s == derefs(sorted@),
            r@ == other_domain_cpus(s.take(i as int), l3),
        decreases sorted.len() - i,
    {
        let d = sorted[i];
        if d.l3_cache_id != l3 {
            append_u32s(&mut r, &d.cpu_ids);
        }
        assert(s.take(i + 1).drop_last() =~= s.take(i as int));
        assert(s.take(i + 1).last() == s[i as int]);
        assert(r@ =~= other_domain_cpus(s.take(i + 1), l3));
        i = i + 1;
    }
    assert(s.take(sorted.len() as int) =~= s);
    r
}

pub struct CpuPinningOptimizer<'a> {
    topology: &'a CpuTopology,
}

impl<'a> CpuPinningOptimizer<'a> {
    /// The topology this optimizer places vCPUs on.
    pub closed spec fn host(&self) -> CpuTopology {
        *self.topology
    }

    pub fn new(topology: &'a CpuTopology) -> (o: Self)
        ensures
            o.host() == *topology,
    {
        CpuPinningOptimizer { topology }
    }

    /// Calculates optimal 1:1 vCPU pinning, emulatorpin, and iothreadpin.
    ///
    /// Zero vCPUs is a validation error. On hybrid hosts the vCPUs go to
    /// P-core threads (`hybrid_plan`) and a request beyond their number is a
    /// capacity error; elsewhere the domains are ranked by the profile and
    /// filled from the primary one (`ccd_plan`); a request beyond the threads
    /// the domains offer is a capacity error there too.
    pub fn optimize(&self, requested_vcpus: u32, profile: OptimizationProfile, isolate_host: bool) -> (r: Result<CpuPinningMap>)
        ensures
            requested_vcpus == 0 ==> (r matches Err(ClerestoryError::ValidationError(m))
                && m@ == "Requested vCPUs must be at least 1"@),
            requested_vcpus > 0 && self.host().is_hybrid ==> match hybrid_plan(self.host(), requested_vcpus, isolate_host) {
                Some(p) => r matches Ok(m) && matches_plan(m, p),
                None => r == Err::<CpuPinningMap, ClerestoryError>(ClerestoryError::TopologyCapacityError {
                    requested: requested_vcpus,
                    available: p_capacity(self.host()),
                }),
            },
            requested_vcpus > 0 && !self.host().is_hybrid ==> match ccd_plan(self.host(), requested_vcpus, profile, isolate_host) {
                Some(p) => r matches Ok(m) && matches_plan(m, p),
                None => r == Err::<CpuPinningMap, ClerestoryError>(ClerestoryError::TopologyCapacityError {
                    requested: requested_vcpus,
                    available: ccd_capacity(self.host(), requested_vcpus, profile),
                }),
            },
    {
        if requested_vcpus == 0 {
            return Err(ClerestoryError::ValidationError(crate::text::string_from("Requested vCPUs must be at least 1")));
        }
        if self.topology.is_hybrid {
            return self.optimize_hybrid(requested_vcpus, isolate_host);
        }
        self.optimize_ccd(requested_vcpus, profile, isolate_host)
    }

    fn optimize_hybrid(&self, requested_vcpus: u32, isolate_host: bool) -> (r: Result<CpuPinningMap>)
        ensures
            match hybrid_plan(self.host(), requested_vcpus, isolate_host) {
                Some(p) => r matches Ok(m) && matches_plan(m, p),
                None => r == Err::<CpuPinningMap, ClerestoryError>(ClerestoryError::TopologyCapacityError {
                    requested: requested_vcpus,
                    available: p_capacity(self.host()),
                }),
            },
    {
        let doms = &self.topology.cache_domains;
        let p_threads = selected_threads(doms, PairSelection::PerformanceOnly);
        let e_threads = selected_threads(doms, PairSelection::NonPerformance);
        if (requested_vcpus as usize) > p_threads.len() {
            return Err(ClerestoryError::TopologyCapacityError {
                requested: requested_vcpus,
                available: #[verifier::truncate] (p_threads.len() as u32),
            });
        }
        let vcpu_pins = pin_prefix(&p_threads, requested_vcpus);
        let helpers = helpers_for(e_threads, isolate_host, self.topology.total_threads, &vcpu_pins);
        Ok(finish_plan(vcpu_pins, &helpers))
    }

    fn optimize_ccd(&self, requested_vcpus: u32, profile: OptimizationProfile, isolate_host: bool) -> (r: Result<CpuPinningMap>)
        ensures
            match ccd_plan(self.host(), requested_vcpus, profile, isolate_host) {
                Some(p) => r matches Ok(m) && matches_plan(m, p),
                None => r == Err::<CpuPinningMap, ClerestoryError>(ClerestoryError::TopologyCapacityError {
                    requested: requested_vcpus,
                    available: ccd_capacity(self.host(), requested_vcpus, profile),
                }),
            },
    {
        let sorted = sorted_domains(&self.topology.cache_domains, profile);
        let ghost s = derefs(sorted@);
        let prim_idx: usize = match first_fit(&sorted, requested_vcpus) {
            Some(i) => i,
            None => {
                if sorted.len() > 0 {
                    0
                } else {
                    return Err(ClerestoryError::TopologyCapacityError {
                        requested: requested_vcpus,
                        available: 0,
                    });
                }
            },
        };
        let prim = sorted[prim_idx];
        assert(*prim == s[prim_idx as int]);
        let prim_threads = threads_of(prim);
        let mut vcpu_pins = pin_prefix(&prim_threads, requested_vcpus);
        let spill = other_threads(&sorted, prim.l3_cache_id);
        fill_pins(&mut vcpu_pins, &spill, requested_vcpus);
        if vcpu_pins.len() < requested_vcpus as usize {
            return Err(ClerestoryError::TopologyCapacityError {
                requested: requested_vcpus,
                available: vcpu_pins.len() as u32,
            });
        }
        let others = other_cpus(&sorted, prim.l3_cache_id);
        let free = unpinned(&others, &vcpu_pins);
        let helpers = helpers_for(free, isolate_host, self.topology.total_threads, &vcpu_pins);
        Ok(finish_plan(vcpu_pins, &helpers))
    }
}

} // verus!

verus! {

/// The domain can host `requested` vCPUs on its own threads.
pub open spec fn fits(d: CacheDomain, requested: u32) -> bool {
    requested <= domain_threads(d).len()
}

/// vCPU `k` is the `k`-th pin, for every pin.
pub open spec fn numbered(pins: Seq<(u32, u32)>) -> bool {
    forall|k: int| 0 <= k < pins.len() ==> #[trigger] pins[k].0 == k
}

/// Every pinned host CPU is one of the threads in `threads`.
pub open spec fn pinned_within(pins: Seq<(u32, u32)>, threads: Seq<u32>) -> bool {
    forall|k: int| 0 <= k < pins.len() ==> threads.contains(#[trigger] pins[k].1)
}

proof fn lemma_fill(p: Seq<(u32, u32)>, c: Seq<u32>, req: u32)
    requires
        p.len() <= req,
        numbered(p),
    ensures
        fill(p, c, req).len() <= req,
        fill(p, c, req).len() >= p.len(),
        numbered(fill(p, c, req)),
        fill(p, c, req).take(p.len() as int) == p,
    decreases c.len(),
{
    if c.len() > 0 {
        lemma_fill(p, c.drop_last(), req);
        let q = fill(p, c.drop_last(), req);
        let x = c.last();
        if q.len() < req && !hosts(q).contains(x) {
            assert(q.push((q.len() as u32, x)).take(p.len() as int) =~= q.take(p.len() as int));
        }
    } else {
        assert(p.take(p.len() as int) =~= p);
    }
}

proof fn lemma_fill_full(p: Seq<(u32, u32)>, c: Seq<u32>, req: u32)
    requires
        p.len() >= req,
    ensures
        fill(p, c, req) == p,
    decreases c.len(),
{
    if c.len() > 0 {
        lemma_fill_full(p, c.drop_last(), req);
    }
}

proof fn lemma_prefix(cands: Seq<u32>, req: u32)
    ensures
        numbered(enumerate_prefix(cands, req)),
        pinned_within(enumerate_prefix(cands, req), cands),
        enumerate_prefix(cands, req).len() <= req,
        req <= cands.len() ==> enumerate_prefix(cands, req).len() == req,
{
    let e = enumerate_prefix(cands, req);
    assert forall|k: int| 0 <= k < e.len() implies cands.contains(#[trigger] e[k].1) by {
        assert(cands[k] == e[k].1);
    }
}

proof fn lemma_insert_pos(profile: OptimizationProfile, s: Seq<CacheDomain>, k: u64)
    ensures
        insert_pos(profile, s, k) <= s.len(),
        forall|q: int| 0 <= q < insert_pos(profile, s, k) ==> domain_key(profile, #[trigger] s[q]) <= k,
        insert_pos(profile, s, k) < s.len() ==> domain_key(profile, s[insert_pos(profile, s, k) as int]) > k,
    decreases s.len(),
{
    if s.len() > 0 && domain_key(profile, s[0]) <= k {
        lemma_insert_pos(profile, s.drop_first(), k);
        assert forall|q: int| 0 <= q < insert_pos(profile, s, k) implies domain_key(profile, #[trigger] s[q]) <= k by {
            if q > 0 {
                assert(s[q] == s.drop_first()[q - 1]);
            }
        }
    }
}

/// Sorted by key, ascending.
pub open spec fn key_sorted(profile: OptimizationProfile, s: Seq<CacheDomain>) -> bool {
    forall|i: int, j: int| 0 <= i < j < s.len() ==> domain_key(profile, s[i]) <= domain_key(profile, s[j])
}

/// The ranked domains are the host's domains, each once, in ascending key order.
pub proof fn lemma_sort_domains(profile: OptimizationProfile, doms: Seq<CacheDomain>)
    ensures
        sort_domains(profile, doms).len() == doms.len(),
        key_sorted(profile, sort_domains(profile, doms)),
        sort_domains(profile, doms).to_multiset() == doms.to_multiset(),
    decreases doms.len(),
{
    broadcast use vstd::seq_lib::group_to_multiset_ensures;
    if doms.len() > 0 {
        let s = sort_domains(profile, doms.drop_last());
        lemma_sort_domains(profile, doms.drop_last());
        let x = doms.last();
        let k = domain_key(profile, x);
        let pos = insert_pos(profile, s, k);
        lemma_insert_pos(profile, s, k);
        s.insert_ensures(pos as int, x);
        let t = s.insert(pos as int, x);
        assert forall|i: int, j: int| 0 <= i < j < t.len() implies domain_key(profile, t[i]) <= domain_key(profile, t[j]) by {
            if j < pos {
            } else if j == pos {
                assert(t[i] == s[i]);
            } else if i < pos {
                assert(t[j] == s[j - 1]);
                assert(t[i] == s[i]);
                if pos < s.len() {
                    assert(domain_key(profile, s[pos as int]) > k);
                    if j - 1 > pos {
                        assert(domain_key(profile, s[pos as int]) <= domain_key(profile, s[j - 1]));
                    }
                }
            } else if i == pos {
                assert(t[j] == s[j - 1]);
                assert(domain_key(profile, s[pos as int]) > k);
                if j - 1 > pos {
                    assert(domain_key(profile, s[pos as int]) <= domain_key(profile, s[j - 1]));
                }
            } else {
                assert(t[j] == s[j - 1]);
                assert(t[i] == s[i - 1]);
            }
        }
        assert(t =~= s.subrange(0, pos as int).push(x) + s.subrange(pos as int, s.len() as int));
        assert(s =~= s.subrange(0, pos as int) + s.subrange(pos as int, s.len() as int));
        vstd::seq_lib::lemma_multiset_commutative(s.subrange(0, pos as int).push(x), s.subrange(pos as int, s.len() as int));
        vstd::seq_lib::lemma_multiset_commutative(s.subrange(0, pos as int), s.subrange(pos as int, s.len() as int));
        assert(doms =~= doms.drop_last().push(x));
    }
}

proof fn lemma_first_fit_found(s: Seq<CacheDomain>, req: u32, i: int, j: int)
    requires
        0 <= i <= j < s.len(),
        fits(s[j], req),
    ensures
        first_fit_from(s, req, i) matches Some(f) && i <= f <= j && fits(s[f], req),
    decreases j - i,
{
    if !fits(s[i], req) {
        lemma_first_fit_found(s, req, i + 1, j);
    }
}

proof fn lemma_first_fit_sound(s: Seq<CacheDomain>, req: u32, i: int)
    ensures
        first_fit_from(s, req, i) matches Some(f) ==> 0 <= f < s.len() && fits(s[f], req),
    decreases s.len() - i,
{
    if 0 <= i < s.len() && !fits(s[i], req) {
        lemma_first_fit_sound(s, req, i + 1);
    }
}

/// When some cache domain can hold the whole request, the placement keeps every
/// vCPU inside one domain that can hold it, a domain whose key is the least
/// among the domains that can.
proof fn lemma_ccd_single_domain(topo: CpuTopology, requested: u32, profile: OptimizationProfile, isolate_host: bool, d: CacheDomain)
    requires
        topo.cache_domains@.contains(d),
        fits(d, requested),
    ensures
        ccd_plan(topo, requested, profile, isolate_host) matches Some(p) && exists|prim: CacheDomain| {
            &&& topo.cache_domains@.contains(prim)
            &&& fits(prim, requested)
            &&& domain_key(profile, prim) <= domain_key(profile, d)
            &&& p.vcpu_pins.len() == requested
            &&& numbered(p.vcpu_pins)
            &&& pinned_within(p.vcpu_pins, domain_threads(prim))
        },
{
    broadcast use vstd::seq_lib::group_to_multiset_ensures;
    let doms = topo.cache_domains@;
    let s = sort_domains(profile, doms);
    lemma_sort_domains(profile, doms);
    assert(s.to_multiset().count(d) > 0);
    assert(s.contains(d));
    let j = choose|j: int| 0 <= j < s.len() && s[j] == d;
    lemma_first_fit_found(s, requested, 0, j);
    let f = first_fit_from(s, requested, 0)->0;
    let prim = s[f];
    assert(doms.to_multiset().count(prim) > 0);
    let pins1 = enumerate_prefix(domain_threads(prim), requested);
    lemma_prefix(domain_threads(prim), requested);
    lemma_fill_full(pins1, other_domain_threads(s, prim.l3_cache_id), requested);
    let p = ccd_plan(topo, requested, profile, isolate_host)->0;
    assert(p.vcpu_pins == pins1);
}

/// Gaming: when some 3D V-Cache domain can hold every requested vCPU, all vCPUs
/// are pinned, numbered from zero, onto the threads of one 3D V-Cache domain.
pub proof fn law_gaming_prefers_vcache(topo: CpuTopology, requested: u32, isolate_host: bool, d: CacheDomain)
    requires
        topo.cache_domains@.contains(d),
        d.has_3d_vcache,
        fits(d, requested),
    ensures
        ccd_plan(topo, requested, OptimizationProfile::Gaming, isolate_host) matches Some(p) && exists|prim: CacheDomain| {
            &&& topo.cache_domains@.contains(prim)
            &&& prim.has_3d_vcache
            &&& p.vcpu_pins.len() == requested
            &&& numbered(p.vcpu_pins)
            &&& pinned_within(p.vcpu_pins, domain_threads(prim))
        },
{
    lemma_ccd_single_domain(topo, requested, OptimizationProfile::Gaming, isolate_host, d);
}

/// Compute: when some domain without 3D V-Cache can hold every requested vCPU,
/// all vCPUs are pinned onto the threads of one such domain.
pub proof fn law_compute_prefers_standard_cache(topo: CpuTopology, requested: u32, isolate_host: bool, d: CacheDomain)
    requires
        topo.cache_domains@.contains(d),
        !d.has_3d_vcache,
        fits(d, requested),
    ensures
        ccd_plan(topo, requested, OptimizationProfile::Compute, isolate_host) matches Some(p) && exists|prim: CacheDomain| {
            &&& topo.cache_domains@.contains(prim)
            &&& !prim.has_3d_vcache
            &&& p.vcpu_pins.len() == requested
            &&& numbered(p.vcpu_pins)
            &&& pinned_within(p.vcpu_pins, domain_threads(prim))
        },
{
    lemma_ccd_single_domain(topo, requested, OptimizationProfile::Compute, isolate_host, d);
}

/// Auto: when some domain can hold every requested vCPU, all vCPUs are pinned
/// onto the threads of one domain that can, with the largest L3 among those.
pub proof fn law_auto_prefers_largest_fitting_cache(topo: CpuTopology, requested: u32, isolate_host: bool, d: CacheDomain)
    requires
        topo.cache_domains@.contains(d),
        fits(d, requested),
    ensures
        ccd_plan(topo, requested, OptimizationProfile::Auto, isolate_host) matches Some(p) && exists|prim: CacheDomain| {
            &&& topo.cache_domains@.contains(prim)
            &&& fits(prim, requested)
            &&& prim.size_bytes >= d.size_bytes
            &&& p.vcpu_pins.len() == requested
            &&& numbered(p.vcpu_pins)
            &&& pinned_within(p.vcpu_pins, domain_threads(prim))
        },
{
    lemma_ccd_single_domain(topo, requested, OptimizationProfile::Auto, isolate_host, d);
}

} // verus!

verus! {

proof fn lemma_excluding(cands: Seq<u32>, used: Seq<u32>)
    ensures
        forall|k: int| 0 <= k < excluding(cands, used).len() ==> !used.contains(#[trigger] excluding(cands, used)[k]),
    decreases cands.len(),
{
    if cands.len() > 0 {
        lemma_excluding(cands.drop_last(), used);
        let r = excluding(cands, used);
        let q = excluding(cands.drop_last(), used);
        assert forall|k: int| 0 <= k < r.len() implies !used.contains(#[trigger] r[k]) by {
            if k < q.len() {
                assert(r[k] == q[k]);
            }
        }
    }
}

proof fn lemma_free_below(n: nat, used: Seq<u32>)
    ensures
        forall|k: int| 0 <= k < free_below(n, used).len() ==> !used.contains(#[trigger] free_below(n, used)[k]),
    decreases n,
{
    if n > 0 {
        lemma_free_below((n - 1) as nat, used);
        let r = free_below(n, used);
        let q = free_below((n - 1) as nat, used);
        assert forall|k: int| 0 <= k < r.len() implies !used.contains(#[trigger] r[k]) by {
            if k < q.len() {
                assert(r[k] == q[k]);
            }
        }
    }
}

/// Every plan pins exactly the requested vCPUs one-to-one, numbered 0, 1, 2, ….
pub proof fn law_vcpus_numbered_from_zero(topo: CpuTopology, requested: u32, profile: OptimizationProfile, isolate_host: bool)
    ensures
        ccd_plan(topo, requested, profile, isolate_host) matches Some(p) ==>
            numbered(p.vcpu_pins) && p.vcpu_pins.len() == requested,
        hybrid_plan(topo, requested, isolate_host) matches Some(p) ==>
            numbered(p.vcpu_pins) && p.vcpu_pins.len() == requested,
{
    let s = sort_domains(profile, topo.cache_domains@);
    if let Some(i) = primary_pos(s, requested) {
        let prim = s[i];
        let pins1 = enumerate_prefix(domain_threads(prim), requested);
        lemma_prefix(domain_threads(prim), requested);
        lemma_fill(pins1, other_domain_threads(s, prim.l3_cache_id), requested);
    }
    let pt = domains_threads(topo.cache_domains@, PairSelection::PerformanceOnly);
    lemma_prefix(pt, requested);
}

/// Hybrid hosts: the request succeeds exactly when the P-cores have enough
/// threads; then every vCPU sits on a P-core thread, and the emulator pin is the
/// first thread of the non-P cores whenever there are any.
pub proof fn law_hybrid_uses_performance_cores(topo: CpuTopology, requested: u32, isolate_host: bool)
    ensures
        (hybrid_plan(topo, requested, isolate_host) is Some)
            <==> requested <= domains_threads(topo.cache_domains@, PairSelection::PerformanceOnly).len(),
        hybrid_plan(topo, requested, isolate_host) matches Some(p) ==> {
            &&& pinned_within(p.vcpu_pins, domains_threads(topo.cache_domains@, PairSelection::PerformanceOnly))
            &&& domains_threads(topo.cache_domains@, PairSelection::NonPerformance).len() > 0 ==>
                p.emulator_pins == seq![domains_threads(topo.cache_domains@, PairSelection::NonPerformance)[0]]
        },
{
    let pt = domains_threads(topo.cache_domains@, PairSelection::PerformanceOnly);
    lemma_prefix(pt, requested);
}

/// With host isolation, the emulator thread never shares a host CPU with a vCPU
/// as long as some CPU below the thread count is left free.
pub proof fn law_isolated_emulator_avoids_vcpus(topo: CpuTopology, requested: u32, profile: OptimizationProfile, c: u32)
    requires
        c < topo.total_threads,
    ensures
        ccd_plan(topo, requested, profile, true) matches Some(p) ==>
            (!hosts(p.vcpu_pins).contains(c) ==> !hosts(p.vcpu_pins).contains(p.emulator_pins[0])),
{
    let s = sort_domains(profile, topo.cache_domains@);
    if let Some(i) = primary_pos(s, requested) {
        let prim = s[i];
        let pins1 = enumerate_prefix(domain_threads(prim), requested);
        let pins = fill(pins1, other_domain_threads(s, prim.l3_cache_id), requested);
        let free = excluding(other_domain_cpus(s, prim.l3_cache_id), hosts(pins));
        lemma_excluding(other_domain_cpus(s, prim.l3_cache_id), hosts(pins));
        lemma_free_below(topo.total_threads as nat, hosts(pins));
        if !hosts(pins).contains(c) && free.len() == 0 {
            lemma_free_below_contains(topo.total_threads as nat, hosts(pins), c);
        }
    }
}

proof fn lemma_free_below_contains(n: nat, used: Seq<u32>, c: u32)
    requires
        c < n,
        !used.contains(c),
    ensures
        free_below(n, used).len() > 0,
    decreases n,
{
    if c < n - 1 {
        lemma_free_below_contains((n - 1) as nat, used, c);
    }
}


/// Taking the first candidates in order uses each of them once.
proof fn lemma_prefix_distinct(cands: Seq<u32>, req: u32)
    requires
        cands.no_duplicates(),
    ensures
        hosts(enumerate_prefix(cands, req)).no_duplicates(),
{
    let e = enumerate_prefix(cands, req);
    assert forall|i: int, j: int| 0 <= i < hosts(e).len() && 0 <= j < hosts(e).len() && i != j
        implies hosts(e)[i] != hosts(e)[j] by {
        assert(hosts(e)[i] == cands[i]);
        assert(hosts(e)[j] == cands[j]);
    }
}

/// Filling only takes candidates not yet used.
proof fn lemma_fill_distinct(p: Seq<(u32, u32)>, c: Seq<u32>, req: u32)
    requires
        hosts(p).no_duplicates(),
    ensures
        hosts(fill(p, c, req)).no_duplicates(),
    decreases c.len(),
{
    if c.len() > 0 {
        lemma_fill_distinct(p, c.drop_last(), req);
        let q = fill(p, c.drop_last(), req);
        let x = c.last();
        if q.len() < req && !hosts(q).contains(x) {
            let q2 = q.push((q.len() as u32, x));
            assert(hosts(q2) =~= hosts(q).push(x));
            assert forall|i: int, j: int| 0 <= i < hosts(q2).len() && 0 <= j < hosts(q2).len() && i != j
                implies hosts(q2)[i] != hosts(q2)[j] by {
                if i == hosts(q).len() as int {
                    assert(hosts(q)[j] != x);
                } else if j == hosts(q).len() as int {
                    assert(hosts(q)[i] != x);
                }
            }
        }
    }
}

/// Every cache domain lists each of its hardware threads once.
pub open spec fn threads_listed_once(topo: CpuTopology) -> bool {
    forall|i: int| 0 <= i < topo.cache_domains@.len() ==> (#[trigger] domain_threads(topo.cache_domains@[i])).no_duplicates()
}

/// Pinning is one-to-one: on a host whose cache domains list each thread once
/// (and, for a hybrid host, whose P-core threads are listed once), no two vCPUs
/// of a plan share a host CPU.
pub proof fn law_vcpu_pins_one_to_one(topo: CpuTopology, requested: u32, profile: OptimizationProfile, isolate_host: bool)
    ensures
        threads_listed_once(topo) ==> (ccd_plan(topo, requested, profile, isolate_host) matches Some(p)
            ==> hosts(p.vcpu_pins).no_duplicates()),
        domains_threads(topo.cache_domains@, PairSelection::PerformanceOnly).no_duplicates()
            ==> (hybrid_plan(topo, requested, isolate_host) matches Some(p) ==> hosts(p.vcpu_pins).no_duplicates()),
{
    broadcast use vstd::seq_lib::group_to_multiset_ensures;
    let doms = topo.cache_domains@;
    let s = sort_domains(profile, doms);
    if threads_listed_once(topo) {
        if let Some(i) = primary_pos(s, requested) {
            lemma_sort_domains(profile, doms);
            lemma_first_fit_sound(s, requested, 0);
            assert(0 <= i < s.len());
            let prim = s[i];
            assert(s.contains(prim));
            assert(s.to_multiset().count(prim) > 0);
            assert(doms.to_multiset().count(prim) > 0);
            assert(doms.contains(prim));
            let j = choose|j: int| 0 <= j < doms.len() && doms[j] == prim;
            assert(domain_threads(doms[j]).no_duplicates());
            let pins1 = enumerate_prefix(domain_threads(prim), requested);
            lemma_prefix_distinct(domain_threads(prim), requested);
            lemma_fill_distinct(pins1, other_domain_threads(s, prim.l3_cache_id), requested);
        }
    }
    let pt = domains_threads(doms, PairSelection::PerformanceOnly);
    if pt.no_duplicates() {
        lemma_prefix_distinct(pt, requested);
    }
}

/// When some cache domain can hold the request on its own, vCPU k sits on the
/// k-th hardware thread of one such domain, for every requested vCPU.
pub proof fn law_primary_threads_in_order(topo: CpuTopology, requested: u32, profile: OptimizationProfile, isolate_host: bool, d: CacheDomain)
    requires
        topo.cache_domains@.contains(d),
        fits(d, requested),
    ensures
        ccd_plan(topo, requested, profile, isolate_host) matches Some(p) && exists|prim: CacheDomain| {
            &&& topo.cache_domains@.contains(prim)
            &&& fits(prim, requested)
            &&& p.vcpu_pins.len() == requested
            &&& forall|k: int| 0 <= k < requested ==> #[trigger] p.vcpu_pins[k] == (k as u32, domain_threads(prim)[k])
        },
{
    broadcast use vstd::seq_lib::group_to_multiset_ensures;
    lemma_ccd_single_domain(topo, requested, profile, isolate_host, d);
    let doms = topo.cache_domains@;
    let s = sort_domains(profile, doms);
    lemma_sort_domains(profile, doms);
    assert(doms.to_multiset().count(d) > 0);
    assert(s.to_multiset().count(d) > 0);
    assert(s.contains(d));
    let j = choose|j: int| 0 <= j < s.len() && s[j] == d;
    lemma_first_fit_found(s, requested, 0, j);
    let f = first_fit_from(s, requested, 0)->0;
    assert(s.contains(s[f]));
    let prim = s[f];
    assert(s.to_multiset().count(prim) > 0);
    assert(doms.to_multiset().count(prim) > 0);
    let pins1 = enumerate_prefix(domain_threads(prim), requested);
    lemma_prefix(domain_threads(prim), requested);
    lemma_fill_full(pins1, other_domain_threads(s, prim.l3_cache_id), requested);
    let p = ccd_plan(topo, requested, profile, isolate_host)->0;
    assert(p.vcpu_pins == pins1);
    assert(forall|k: int| 0 <= k < requested ==> #[trigger] p.vcpu_pins[k] == (k as u32, domain_threads(prim)[k]));
}

} // verus!
