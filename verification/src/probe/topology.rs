//! Assembly of the host CPU topology from what sysfs reports for each online CPU.
//!
//! Cores are grouped by (package, core id), cache domains by L3 cache id; both
//! are listed in ascending key order.

use crate::error::ClerestoryError;
use crate::model::host::{CacheDomain, CorePair, CoreType, CpuTopology};
use crate::probe::cpu::{cpu_listed, insert_sorted, parse_cpu_list, strictly_increasing};
use crate::text::{
    chars_of, dec, eq_str, string_from, string_of, lines, lines_of, parse_u32_chars, parse_u64_chars, push_decimal, slice_chars,
    spec_parse_u32, spec_parse_u64, trim, trim_chars, views, words, words_of,
};
use vstd::prelude::*;

verus! {

/// The raw contents of one online CPU's topology, cache and frequency
/// attributes; `None` where the attribute could not be read.
pub struct CpuReading {
    pub cpu_id: u32,
    pub core_id: Option<String>,
    pub physical_package_id: Option<String>,
    pub thread_siblings_list: Option<String>,
    pub core_type: Option<String>,
    pub max_freq_khz: Option<String>,
    pub l3_id: Option<String>,
    pub l3_size: Option<String>,
}

/// A numeric attribute: its trimmed contents read as a `u32`.
pub open spec fn attr_u32(o: Option<String>) -> Option<u32> {
    match o {
        Some(s) => spec_parse_u32(trim(s@)),
        None => None,
    }
}

/// A numeric attribute: its trimmed contents read as a `u64`.
pub open spec fn attr_u64(o: Option<String>) -> Option<u64> {
    match o {
        Some(s) => spec_parse_u64(trim(s@)),
        None => None,
    }
}

/// Bytes named by a cache size attribute such as "32768K", "96M" or "1048576".
pub open spec fn size_text(s: Seq<char>) -> Option<nat> {
    let t = trim(s);
    if t.len() > 0 && t.last() == 'K' {
        match spec_parse_u64(t.drop_last()) {
            Some(n) => Some((n * 1024) as nat),
            None => None,
        }
    } else if t.len() > 0 && t.last() == 'M' {
        match spec_parse_u64(t.drop_last()) {
            Some(n) => Some((n * 1048576) as nat),
            None => None,
        }
    } else {
        match spec_parse_u64(t) {
            Some(n) => Some(n as nat),
            None => None,
        }
    }
}

/// L3 size assumed when the attribute is missing or unreadable: 32 MiB.
pub open spec fn default_l3_size() -> nat {
    33554432
}

pub open spec fn core_of(r: CpuReading) -> u32 {
    match attr_u32(r.core_id) {
        Some(v) => v,
        None => r.cpu_id,
    }
}

pub open spec fn socket_of(r: CpuReading) -> u32 {
    match attr_u32(r.physical_package_id) {
        Some(v) => v,
        None => 0,
    }
}

/// The (package, core) key that groups SMT siblings into one physical core.
pub open spec fn core_key(r: CpuReading) -> (u32, u32) {
    (socket_of(r), core_of(r))
}

/// The sibling list text; a CPU without one is its own only sibling.
pub open spec fn siblings_text(r: CpuReading) -> Seq<char> {
    match r.thread_siblings_list {
        Some(s) => s@,
        None => dec(r.cpu_id as nat),
    }
}

pub open spec fn in_siblings(r: CpuReading, c: u32) -> bool {
    cpu_listed(siblings_text(r), c)
}

/// Core type attribute 0 marks a performance core, 1 an efficient core.
pub open spec fn kind_of(r: CpuReading) -> CoreType {
    match attr_u32(r.core_type) {
        Some(v) => if v == 0 {
            CoreType::Performance
        } else if v == 1 {
            CoreType::Efficient
        } else {
            CoreType::Standard
        },
        None => CoreType::Standard,
    }
}

pub open spec fn freq_of(r: CpuReading) -> u64 {
    match attr_u64(r.max_freq_khz) {
        Some(v) => v,
        None => 0,
    }
}

pub open spec fn l3_of(r: CpuReading) -> u32 {
    match attr_u32(r.l3_id) {
        Some(v) => v,
        None => 0,
    }
}

pub open spec fn size_of(r: CpuReading) -> nat {
    match r.l3_size {
        Some(s) => match size_text(s@) {
            Some(n) => n,
            None => default_l3_size(),
        },
        None => default_l3_size(),
    }
}

/// The L3 size of a reading can be computed in a `u64`.
pub open spec fn size_in_range(r: CpuReading) -> bool {
    match r.l3_size {
        Some(s) => match size_text(s@) {
            Some(n) => n <= u64::MAX,
            None => true,
        },
        None => true,
    }
}

/// Reads a numeric attribute as a `u32`.
pub fn read_attr_u32(o: &Option<String>) -> (r: Option<u32>)
    ensures
        r == attr_u32(*o),
{
    match o {
        Some(s) => {
            let v = chars_of(s.as_str());
            let t = trim_chars(&v);
            parse_u32_chars(&t)
        },
        None => None,
    }
}

/// Reads a numeric attribute as a `u64`.
pub fn read_attr_u64(o: &Option<String>) -> (r: Option<u64>)
    ensures
        r == attr_u64(*o),
{
    match o {
        Some(s) => {
            let v = chars_of(s.as_str());
            let t = trim_chars(&v);
            parse_u64_chars(&t)
        },
        None => None,
    }
}

/// Whether a cache size attribute names a byte count that fits in a `u64`.
pub fn size_text_fits(s: &str) -> (b: bool)
    ensures
        b == (match size_text(s@) {
            Some(n) => n <= u64::MAX,
            None => true,
        }),
{
    let v = chars_of(s);
    let t = trim_chars(&v);
    let n = t.len();
    if n > 0 && (t[n - 1] == 'K' || t[n - 1] == 'M') {
        let body = slice_chars(&t, 0, n - 1);
        assert(body@ =~= t@.drop_last());
        match parse_u64_chars(&body) {
            Some(x) => if t[n - 1] == 'K' { x <= u64::MAX / 1024 } else { x <= u64::MAX / 1048576 },
            None => true,
        }
    } else {
        true
    }
}

/// Reads a cache size attribute such as "32768K" or "96M" as bytes.
pub fn parse_size_bytes(s: &str) -> (r: Option<u64>)
    requires
        match size_text(s@) {
            Some(n) => n <= u64::MAX,
            None => true,
        },
    ensures
        match size_text(s@) {
            Some(n) => r == Some(n as u64),
            None => r is None,
        },
{
    let v = chars_of(s);
    let t = trim_chars(&v);
    let n = t.len();
    if n > 0 && t[n - 1] == 'K' {
        let body = slice_chars(&t, 0, n - 1);
        assert(body@ =~= t@.drop_last());
        match parse_u64_chars(&body) {
            Some(x) => Some(x * 1024),
            None => None,
        }
    } else if n > 0 && t[n - 1] == 'M' {
        let body = slice_chars(&t, 0, n - 1);
        assert(body@ =~= t@.drop_last());
        match parse_u64_chars(&body) {
            Some(x) => Some(x * 1024 * 1024),
            None => None,
        }
    } else {
        parse_u64_chars(&t)
    }
}


/// Lexicographic order on (package, core) keys.
pub open spec fn key_lt(a: (u32, u32), b: (u32, u32)) -> bool {
    a.0 < b.0 || (a.0 == b.0 && a.1 < b.1)
}

/// Some reading belongs to the physical core `k`.
pub open spec fn has_core(rs: Seq<CpuReading>, k: (u32, u32)) -> bool {
    exists|j: int| 0 <= j < rs.len() && #[trigger] core_key(rs[j]) == k
}

/// CPU `t` is a thread of core `k`: some reading of that core lists it as a sibling.
pub open spec fn core_thread(rs: Seq<CpuReading>, k: (u32, u32), t: u32) -> bool {
    exists|j: int| 0 <= j < rs.len() && #[trigger] core_key(rs[j]) == k && in_siblings(rs[j], t)
}

/// The type of core `k`: that of its first reading.
pub open spec fn core_kind(rs: Seq<CpuReading>, k: (u32, u32)) -> CoreType
    decreases rs.len(),
{
    if rs.len() == 0 {
        CoreType::Standard
    } else if has_core(rs.drop_last(), k) {
        core_kind(rs.drop_last(), k)
    } else {
        kind_of(rs.last())
    }
}

/// The highest maximum frequency among the readings of core `k`.
pub open spec fn core_freq(rs: Seq<CpuReading>, k: (u32, u32)) -> u64
    decreases rs.len(),
{
    if rs.len() == 0 {
        0
    } else {
        let p = core_freq(rs.drop_last(), k);
        if core_key(rs.last()) == k && freq_of(rs.last()) > p {
            freq_of(rs.last())
        } else {
            p
        }
    }
}

/// Some reading shares L3 cache `l`.
pub open spec fn has_l3(rs: Seq<CpuReading>, l: u32) -> bool {
    exists|j: int| 0 <= j < rs.len() && #[trigger] l3_of(rs[j]) == l
}

/// CPU `c` shares L3 cache `l`.
pub open spec fn l3_cpu(rs: Seq<CpuReading>, l: u32, c: u32) -> bool {
    exists|j: int| 0 <= j < rs.len() && #[trigger] l3_of(rs[j]) == l && rs[j].cpu_id == c
}

/// The package of cache `l`: that of its first reading.
pub open spec fn l3_socket(rs: Seq<CpuReading>, l: u32) -> u32
    decreases rs.len(),
{
    if rs.len() == 0 {
        0
    } else if has_l3(rs.drop_last(), l) {
        l3_socket(rs.drop_last(), l)
    } else {
        socket_of(rs.last())
    }
}

/// The largest size reported for cache `l`.
pub open spec fn l3_size(rs: Seq<CpuReading>, l: u32) -> nat
    decreases rs.len(),
{
    if rs.len() == 0 {
        0
    } else {
        let p = l3_size(rs.drop_last(), l);
        if l3_of(rs.last()) == l && size_of(rs.last()) > p {
            size_of(rs.last())
        } else {
            p
        }
    }
}

/// Some reading is on package `s`.
pub open spec fn has_socket(rs: Seq<CpuReading>, s: u32) -> bool {
    exists|j: int| 0 <= j < rs.len() && #[trigger] socket_of(rs[j]) == s
}

proof fn lemma_push_facts(rs: Seq<CpuReading>, r: CpuReading)
    ensures
        rs.push(r).drop_last() == rs,
        rs.push(r).last() == r,
        forall|k: (u32, u32)| #[trigger] has_core(rs.push(r), k) <==> (has_core(rs, k) || core_key(r) == k),
        forall|k: (u32, u32), t: u32| #[trigger] core_thread(rs.push(r), k, t) <==> (core_thread(rs, k, t) || (core_key(r) == k && in_siblings(r, t))),
        forall|l: u32| #[trigger] has_l3(rs.push(r), l) <==> (has_l3(rs, l) || l3_of(r) == l),
        forall|l: u32, c: u32| #[trigger] l3_cpu(rs.push(r), l, c) <==> (l3_cpu(rs, l, c) || (l3_of(r) == l && r.cpu_id == c)),
        forall|s: u32| #[trigger] has_socket(rs.push(r), s) <==> (has_socket(rs, s) || socket_of(r) == s),
{
    let rs2 = rs.push(r);
    assert(rs2.drop_last() =~= rs);
    assert forall|k: (u32, u32)| #[trigger] has_core(rs2, k) <==> (has_core(rs, k) || core_key(r) == k) by {
        if has_core(rs2, k) {
            let j = choose|j: int| 0 <= j < rs2.len() && #[trigger] core_key(rs2[j]) == k;
            if j < rs.len() { assert(core_key(rs[j]) == k); }
        }
        if has_core(rs, k) {
            let j = choose|j: int| 0 <= j < rs.len() && #[trigger] core_key(rs[j]) == k;
            assert(core_key(rs2[j]) == k);
        }
        if core_key(r) == k { assert(core_key(rs2[rs.len() as int]) == k); }
    }
    assert forall|k: (u32, u32), t: u32| #[trigger] core_thread(rs2, k, t) <==> (core_thread(rs, k, t) || (core_key(r) == k && in_siblings(r, t))) by {
        if core_thread(rs2, k, t) {
            let j = choose|j: int| 0 <= j < rs2.len() && #[trigger] core_key(rs2[j]) == k && in_siblings(rs2[j], t);
            if j < rs.len() { assert(core_key(rs[j]) == k && in_siblings(rs[j], t)); }
        }
        if core_thread(rs, k, t) {
            let j = choose|j: int| 0 <= j < rs.len() && #[trigger] core_key(rs[j]) == k && in_siblings(rs[j], t);
            assert(core_key(rs2[j]) == k && in_siblings(rs2[j], t));
        }
        if core_key(r) == k && in_siblings(r, t) { assert(core_key(rs2[rs.len() as int]) == k); }
    }
    assert forall|l: u32| #[trigger] has_l3(rs2, l) <==> (has_l3(rs, l) || l3_of(r) == l) by {
        if has_l3(rs2, l) {
            let j = choose|j: int| 0 <= j < rs2.len() && #[trigger] l3_of(rs2[j]) == l;
            if j < rs.len() { assert(l3_of(rs[j]) == l); }
        }
        if has_l3(rs, l) {
            let j = choose|j: int| 0 <= j < rs.len() && #[trigger] l3_of(rs[j]) == l;
            assert(l3_of(rs2[j]) == l);
        }
        if l3_of(r) == l { assert(l3_of(rs2[rs.len() as int]) == l); }
    }
    assert forall|l: u32, c: u32| #[trigger] l3_cpu(rs2, l, c) <==> (l3_cpu(rs, l, c) || (l3_of(r) == l && r.cpu_id == c)) by {
        if l3_cpu(rs2, l, c) {
            let j = choose|j: int| 0 <= j < rs2.len() && #[trigger] l3_of(rs2[j]) == l && rs2[j].cpu_id == c;
            if j < rs.len() { assert(l3_of(rs[j]) == l && rs[j].cpu_id == c); }
        }
        if l3_cpu(rs, l, c) {
            let j = choose|j: int| 0 <= j < rs.len() && #[trigger] l3_of(rs[j]) == l && rs[j].cpu_id == c;
            assert(l3_of(rs2[j]) == l);
        }
        if l3_of(r) == l && r.cpu_id == c { assert(l3_of(rs2[rs.len() as int]) == l); }
    }
    assert forall|s: u32| #[trigger] has_socket(rs2, s) <==> (has_socket(rs, s) || socket_of(r) == s) by {
        if has_socket(rs2, s) {
            let j = choose|j: int| 0 <= j < rs2.len() && #[trigger] socket_of(rs2[j]) == s;
            if j < rs.len() { assert(socket_of(rs[j]) == s); }
        }
        if has_socket(rs, s) {
            let j = choose|j: int| 0 <= j < rs.len() && #[trigger] socket_of(rs[j]) == s;
            assert(socket_of(rs2[j]) == s);
        }
        if socket_of(r) == s { assert(socket_of(rs2[rs.len() as int]) == s); }
    }
}


/// One physical core gathered so far: its key, threads, type and frequency.
struct CoreEntry {
    socket: u32,
    core: u32,
    threads: Vec<u32>,
    kind: CoreType,
    freq: u64,
}

spec fn ekey(e: CoreEntry) -> (u32, u32) {
    (e.socket, e.core)
}

spec fn entry_ok(e: CoreEntry, rs: Seq<CpuReading>) -> bool {
    &&& has_core(rs, ekey(e))
    &&& strictly_increasing(e.threads@)
    &&& forall|t: u32| e.threads@.contains(t) <==> core_thread(rs, ekey(e), t)
    &&& e.kind == core_kind(rs, ekey(e))
    &&& e.freq == core_freq(rs, ekey(e))
}

/// `cs` lists every core of `rs` once, in ascending key order.
spec fn core_table(cs: Seq<CoreEntry>, rs: Seq<CpuReading>) -> bool {
    &&& forall|p: int, q: int| 0 <= p < q < cs.len() ==> key_lt(ekey(cs[p]), ekey(cs[q]))
    &&& forall|p: int| 0 <= p < cs.len() ==> entry_ok(#[trigger] cs[p], rs)
    &&& forall|k: (u32, u32)| has_core(rs, k) ==> exists|p: int| 0 <= p < cs.len() && #[trigger] ekey(cs[p]) == k
}

proof fn lemma_absent_core(rs: Seq<CpuReading>, k: (u32, u32))
    requires
        !has_core(rs, k),
    ensures
        core_freq(rs, k) == 0,
        forall|t: u32| !core_thread(rs, k, t),
    decreases rs.len(),
{
    if rs.len() > 0 {
        lemma_push_facts(rs.drop_last(), rs.last());
        assert(rs.drop_last().push(rs.last()) =~= rs);
        lemma_absent_core(rs.drop_last(), k);
    }
    assert forall|t: u32| !core_thread(rs, k, t) by {
        if core_thread(rs, k, t) {
            let j = choose|j: int| 0 <= j < rs.len() && #[trigger] core_key(rs[j]) == k && in_siblings(rs[j], t);
            assert(has_core(rs, k));
        }
    }
}

/// Adds every element of `add` to the strictly increasing `v`.
fn merge_sorted(v: &mut Vec<u32>, add: &Vec<u32>)
    requires
        strictly_increasing(old(v)@),
    ensures
        strictly_increasing(final(v)@),
        forall|c: u32| #[trigger] final(v)@.contains(c) ==> (old(v)@.contains(c) || add@.contains(c)),
        forall|c: u32| #[trigger] old(v)@.contains(c) ==> final(v)@.contains(c),
        forall|c: u32| #[trigger] add@.contains(c) ==> final(v)@.contains(c),
{
    let mut i: usize = 0;
    while i < add.len()
        invariant
            i <= add.len(),
            strictly_increasing(v@),
            forall|c: u32| v@.contains(c) <==> (old(v)@.contains(c) || add@.take(i as int).contains(c)),
        decreases add.len() - i,
    {
        let ghost before = v@;
        insert_sorted(v, add[i]);
        assert forall|c: u32| v@.contains(c) <==> (old(v)@.contains(c) || add@.take(i + 1).contains(c)) by {
            if add@.take(i + 1).contains(c) && c != add@[i as int] {
                let q = choose|q: int| 0 <= q < i + 1 && #[trigger] add@.take(i + 1)[q] == c;
                assert(add@.take(i as int)[q] == c);
            }
            if add@.take(i as int).contains(c) {
                let q = choose|q: int| 0 <= q < i && #[trigger] add@.take(i as int)[q] == c;
                assert(add@.take(i + 1)[q] == c);
            }
            if c == add@[i as int] {
                assert(add@.take(i + 1)[i as int] == c);
            }
        }
        i = i + 1;
    }
    assert(add@.take(add.len() as int) =~= add@);
}

/// A copy of a vector of CPU numbers.
fn copy_u32s(v: &Vec<u32>) -> (r: Vec<u32>)
    ensures
        r@ == v@,
{
    let mut r: Vec<u32> = Vec::new();
    let mut i: usize = 0;
    while i < v.len()
        invariant
            i <= v.len(),
            r@ == v@.take(i as int),
        decreases v.len() - i,
    {
        r.push(v[i]);
        assert(v@.take(i + 1) =~= v@.take(i as int).push(v@[i as int]));
        i = i + 1;
    }
    assert(v@.take(v.len() as int) =~= v@);
    r
}

/// The key, type and frequency of a reading, as the core table records them.
fn reading_core(r: &CpuReading) -> (res: (u32, u32, CoreType, u64))
    ensures
        (res.0, res.1) == core_key(*r),
        res.2 == kind_of(*r),
        res.3 == freq_of(*r),
{
    let socket = match read_attr_u32(&r.physical_package_id) { Some(v) => v, None => 0 };
    let core = match read_attr_u32(&r.core_id) { Some(v) => v, None => r.cpu_id };
    let kind = match read_attr_u32(&r.core_type) {
        Some(v) => if v == 0 { CoreType::Performance } else if v == 1 { CoreType::Efficient } else { CoreType::Standard },
        None => CoreType::Standard,
    };
    let freq = match read_attr_u64(&r.max_freq_khz) { Some(v) => v, None => 0 };
    (socket, core, kind, freq)
}

/// Entries other than the one keyed `k` are unaffected by a reading of core `k`.
proof fn lemma_other_entry(f: CoreEntry, rs: Seq<CpuReading>, r: CpuReading)
    requires
        entry_ok(f, rs),
        ekey(f) != core_key(r),
    ensures
        entry_ok(f, rs.push(r)),
{
    lemma_push_facts(rs, r);
    let rs2 = rs.push(r);
    assert forall|t: u32| f.threads@.contains(t) <==> core_thread(rs2, ekey(f), t) by {}
    assert(core_kind(rs2, ekey(f)) == core_kind(rs, ekey(f)));
}

/// Merges the reading `r` into the existing entry at `p`, which has its key.
fn merge_core_at(
    cs: &mut Vec<CoreEntry>,
    Ghost(rs): Ghost<Seq<CpuReading>>,
    r: &CpuReading,
    sib: &Vec<u32>,
    p: usize,
    freq: u64,
)
    requires
        core_table(old(cs)@, rs),
        p < old(cs)@.len(),
        ekey(old(cs)@[p as int]) == core_key(*r),
        freq == freq_of(*r),
        forall|t: u32| sib@.contains(t) <==> in_siblings(*r, t),
    ensures
        core_table(final(cs)@, rs.push(*r)),
{
    let ghost rs2 = rs.push(*r);
    let ghost k = core_key(*r);
    proof { lemma_push_facts(rs, *r); }
    let ghost old_cs = cs@;
    let old_e = cs.remove(p);
    assert(old_e == old_cs[p as int]);
    assert(entry_ok(old_e, rs));
    let ghost th0 = old_e.threads@;
    let CoreEntry { socket, core, threads, kind, freq: f0 } = old_e;
    let mut threads = threads;
    assert(threads@ == th0);
    merge_sorted(&mut threads, sib);
    let e = CoreEntry { socket, core, threads, kind, freq: if freq > f0 { freq } else { f0 } };
    assert forall|t: u32| e.threads@.contains(t) <==> core_thread(rs2, k, t) by {
        assert(th0.contains(t) <==> core_thread(rs, k, t));
        assert(core_thread(rs2, k, t) <==> (core_thread(rs, k, t) || in_siblings(*r, t)));
        if e.threads@.contains(t) {
            assert(th0.contains(t) || sib@.contains(t));
        }
        if th0.contains(t) {
            assert(e.threads@.contains(t));
        }
        if sib@.contains(t) {
            assert(e.threads@.contains(t));
        }
    }
    assert(entry_ok(e, rs2)) by {
        assert(has_core(rs2, k));
        assert(core_kind(rs2, k) == core_kind(rs, k));
    }
    cs.insert(p, e);
    assert(cs@ =~= old_cs.update(p as int, e));
    assert forall|q: int| 0 <= q < cs.len() implies entry_ok(#[trigger] cs@[q], rs2) by {
        if q != p {
            if q < p {
                assert(key_lt(ekey(old_cs[q]), ekey(old_cs[p as int])));
            } else {
                assert(key_lt(ekey(old_cs[p as int]), ekey(old_cs[q])));
            }
            assert(entry_ok(old_cs[q], rs));
            lemma_other_entry(old_cs[q], rs, *r);
        }
    }
    assert forall|k2: (u32, u32)| has_core(rs2, k2) implies exists|q: int| 0 <= q < cs.len() && #[trigger] ekey(cs@[q]) == k2 by {
        if k2 == k {
            assert(ekey(cs@[p as int]) == k2);
        } else {
            let q = choose|q: int| 0 <= q < old_cs.len() && #[trigger] ekey(old_cs[q]) == k2;
            assert(ekey(cs@[q]) == k2);
        }
    }
}

/// Inserts a new entry for the reading `r` at `p`, the place of its key in the order.
fn insert_core_at(
    cs: &mut Vec<CoreEntry>,
    Ghost(rs): Ghost<Seq<CpuReading>>,
    r: &CpuReading,
    sib: &Vec<u32>,
    p: usize,
    e: CoreEntry,
)
    requires
        core_table(old(cs)@, rs),
        p <= old(cs)@.len(),
        forall|q: int| 0 <= q < p ==> key_lt(ekey(#[trigger] old(cs)@[q]), core_key(*r)),
        p < old(cs)@.len() ==> key_lt(core_key(*r), ekey(old(cs)@[p as int])),
        ekey(e) == core_key(*r),
        e.threads@ == sib@,
        strictly_increasing(sib@),
        e.kind == kind_of(*r),
        e.freq == freq_of(*r),
        forall|t: u32| sib@.contains(t) <==> in_siblings(*r, t),
    ensures
        core_table(final(cs)@, rs.push(*r)),
{
    let ghost rs2 = rs.push(*r);
    let ghost k = core_key(*r);
    proof { lemma_push_facts(rs, *r); }
    let ghost old_cs = cs@;
    proof {
        if has_core(rs, k) {
            let q = choose|q: int| 0 <= q < old_cs.len() && #[trigger] ekey(old_cs[q]) == k;
            if q > p {
                assert(key_lt(ekey(old_cs[p as int]), ekey(old_cs[q])));
            }
        }
        lemma_absent_core(rs, k);
    }
    assert(entry_ok(e, rs2)) by {
        assert(has_core(rs2, k));
        assert forall|t: u32| e.threads@.contains(t) <==> core_thread(rs2, k, t) by {}
    }
    cs.insert(p, e);
    assert(cs@ =~= old_cs.insert(p as int, e));
    assert forall|q: int| 0 <= q < cs.len() implies entry_ok(#[trigger] cs@[q], rs2) by {
        if q != p {
            let f = if q < p { old_cs[q] } else { old_cs[q - 1] };
            assert(cs@[q] == f);
            if q > p && q - 1 > p {
                assert(key_lt(ekey(old_cs[p as int]), ekey(old_cs[q - 1])));
            }
            assert(entry_ok(f, rs));
            lemma_other_entry(f, rs, *r);
        }
    }
    assert forall|a: int, b: int| 0 <= a < b < cs.len() implies key_lt(ekey(cs@[a]), ekey(cs@[b])) by {
        if b <= p {
        } else if a <= p {
            assert(cs@[b] == old_cs[b - 1]);
            if b - 1 > p {
                assert(key_lt(ekey(old_cs[p as int]), ekey(old_cs[b - 1])));
            }
        } else {
            assert(cs@[b] == old_cs[b - 1]);
            assert(cs@[a] == old_cs[a - 1]);
        }
    }
    assert forall|k2: (u32, u32)| has_core(rs2, k2) implies exists|q: int| 0 <= q < cs.len() && #[trigger] ekey(cs@[q]) == k2 by {
        if k2 == k {
            assert(ekey(cs@[p as int]) == k2);
        } else {
            let q = choose|q: int| 0 <= q < old_cs.len() && #[trigger] ekey(old_cs[q]) == k2;
            if q < p {
                assert(ekey(cs@[q]) == k2);
            } else {
                assert(ekey(cs@[q + 1]) == k2);
            }
        }
    }
}

/// Records the reading `r`, whose siblings are `sib`, in the core table.
fn add_core(
    cs: &mut Vec<CoreEntry>,
    Ghost(rs): Ghost<Seq<CpuReading>>,
    r: &CpuReading,
    sib: &Vec<u32>,
)
    requires
        core_table(old(cs)@, rs),
        strictly_increasing(sib@),
        forall|t: u32| sib@.contains(t) <==> in_siblings(*r, t),
    ensures
        core_table(final(cs)@, rs.push(*r)),
{
    let (socket, core, kind, freq) = reading_core(r);
    let ghost k = (socket, core);
    let mut p: usize = 0;
    while p < cs.len() && (cs[p].socket < socket || (cs[p].socket == socket && cs[p].core < core))
        invariant
            p <= cs.len(),
            cs@ == old(cs)@,
            k == (socket, core),
            forall|q: int| 0 <= q < p ==> key_lt(ekey(#[trigger] cs@[q]), k),
        decreases cs.len() - p,
    {
        p = p + 1;
    }
    if p < cs.len() && cs[p].socket == socket && cs[p].core == core {
        merge_core_at(cs, Ghost(rs), r, sib, p, freq);
    } else {
        let threads = copy_u32s(sib);
        let e = CoreEntry { socket, core, threads, kind, freq };
        insert_core_at(cs, Ghost(rs), r, sib, p, e);
    }
}


/// One L3 cache domain gathered so far.
struct DomEntry {
    l3: u32,
    socket: u32,
    cpus: Vec<u32>,
    size: u64,
}

spec fn dom_ok(d: DomEntry, rs: Seq<CpuReading>) -> bool {
    &&& has_l3(rs, d.l3)
    &&& strictly_increasing(d.cpus@)
    &&& forall|c: u32| d.cpus@.contains(c) <==> l3_cpu(rs, d.l3, c)
    &&& d.socket == l3_socket(rs, d.l3)
    &&& d.size == l3_size(rs, d.l3)
}

/// `ds` lists every L3 cache of `rs` once, in ascending id order.
spec fn dom_table(ds: Seq<DomEntry>, rs: Seq<CpuReading>) -> bool {
    &&& forall|p: int, q: int| 0 <= p < q < ds.len() ==> ds[p].l3 < ds[q].l3
    &&& forall|p: int| 0 <= p < ds.len() ==> dom_ok(#[trigger] ds[p], rs)
    &&& forall|l: u32| has_l3(rs, l) ==> exists|p: int| 0 <= p < ds.len() && #[trigger] ds[p].l3 == l
}

proof fn lemma_absent_l3(rs: Seq<CpuReading>, l: u32)
    requires
        !has_l3(rs, l),
    ensures
        l3_size(rs, l) == 0,
        forall|c: u32| !l3_cpu(rs, l, c),
    decreases rs.len(),
{
    if rs.len() > 0 {
        lemma_push_facts(rs.drop_last(), rs.last());
        assert(rs.drop_last().push(rs.last()) =~= rs);
        lemma_absent_l3(rs.drop_last(), l);
    }
    assert forall|c: u32| !l3_cpu(rs, l, c) by {
        if l3_cpu(rs, l, c) {
            let j = choose|j: int| 0 <= j < rs.len() && #[trigger] l3_of(rs[j]) == l && rs[j].cpu_id == c;
            assert(has_l3(rs, l));
        }
    }
}

proof fn lemma_other_dom(d: DomEntry, rs: Seq<CpuReading>, r: CpuReading)
    requires
        dom_ok(d, rs),
        d.l3 != l3_of(r),
    ensures
        dom_ok(d, rs.push(r)),
{
    lemma_push_facts(rs, r);
    let rs2 = rs.push(r);
    assert forall|c: u32| d.cpus@.contains(c) <==> l3_cpu(rs2, d.l3, c) by {}
    assert(l3_socket(rs2, d.l3) == l3_socket(rs, d.l3));
}

/// The L3 cache id and size of a reading.
fn reading_l3(r: &CpuReading) -> (res: (u32, u64))
    requires
        size_in_range(*r),
    ensures
        res.0 == l3_of(*r),
        res.1 == size_of(*r),
{
    let l3 = match read_attr_u32(&r.l3_id) { Some(v) => v, None => 0 };
    let size = match &r.l3_size {
        Some(s) => match parse_size_bytes(s.as_str()) {
            Some(n) => n,
            None => 33554432,
        },
        None => 33554432,
    };
    (l3, size)
}

/// Adds the reading `r` to the existing domain at `p`, which has its cache id.
fn merge_dom_at(ds: &mut Vec<DomEntry>, Ghost(rs): Ghost<Seq<CpuReading>>, r: &CpuReading, p: usize, size: u64)
    requires
        dom_table(old(ds)@, rs),
        p < old(ds)@.len(),
        old(ds)@[p as int].l3 == l3_of(*r),
        size == size_of(*r),
    ensures
        dom_table(final(ds)@, rs.push(*r)),
{
    let ghost rs2 = rs.push(*r);
    let ghost l = l3_of(*r);
    proof { lemma_push_facts(rs, *r); }
    let ghost old_ds = ds@;
    let old_d = ds.remove(p);
    assert(old_d == old_ds[p as int]);
    assert(dom_ok(old_d, rs));
    let ghost c0 = old_d.cpus@;
    let DomEntry { l3, socket, cpus, size: s0 } = old_d;
    let mut cpus = cpus;
    insert_sorted(&mut cpus, r.cpu_id);
    let d = DomEntry { l3, socket, cpus, size: if size > s0 { size } else { s0 } };
    assert forall|c: u32| d.cpus@.contains(c) <==> l3_cpu(rs2, l, c) by {
        assert(c0.contains(c) <==> l3_cpu(rs, l, c));
    }
    assert(dom_ok(d, rs2)) by {
        assert(has_l3(rs2, l));
        assert(l3_socket(rs2, l) == l3_socket(rs, l));
    }
    ds.insert(p, d);
    assert(ds@ =~= old_ds.update(p as int, d));
    assert forall|q: int| 0 <= q < ds.len() implies dom_ok(#[trigger] ds@[q], rs2) by {
        if q != p {
            if q < p {
                assert(old_ds[q].l3 < old_ds[p as int].l3);
            } else {
                assert(old_ds[p as int].l3 < old_ds[q].l3);
            }
            assert(dom_ok(old_ds[q], rs));
            lemma_other_dom(old_ds[q], rs, *r);
        }
    }
    assert forall|l2: u32| has_l3(rs2, l2) implies exists|q: int| 0 <= q < ds.len() && #[trigger] ds@[q].l3 == l2 by {
        if l2 == l {
            assert(ds@[p as int].l3 == l2);
        } else {
            let q = choose|q: int| 0 <= q < old_ds.len() && #[trigger] old_ds[q].l3 == l2;
            assert(ds@[q].l3 == l2);
        }
    }
}

/// Inserts a new domain for the reading `r` at `p`, the place of its cache id in the order.
fn insert_dom_at(ds: &mut Vec<DomEntry>, Ghost(rs): Ghost<Seq<CpuReading>>, r: &CpuReading, p: usize, d: DomEntry)
    requires
        dom_table(old(ds)@, rs),
        p <= old(ds)@.len(),
        forall|q: int| 0 <= q < p ==> (#[trigger] old(ds)@[q]).l3 < l3_of(*r),
        p < old(ds)@.len() ==> l3_of(*r) < old(ds)@[p as int].l3,
        d.l3 == l3_of(*r),
        d.socket == socket_of(*r),
        d.cpus@ == seq![r.cpu_id],
        d.size == size_of(*r),
    ensures
        dom_table(final(ds)@, rs.push(*r)),
{
    let ghost rs2 = rs.push(*r);
    let ghost l = l3_of(*r);
    proof { lemma_push_facts(rs, *r); }
    let ghost old_ds = ds@;
    proof {
        if has_l3(rs, l) {
            let q = choose|q: int| 0 <= q < old_ds.len() && #[trigger] old_ds[q].l3 == l;
            if q > p {
                assert(old_ds[p as int].l3 < old_ds[q].l3);
            }
        }
        lemma_absent_l3(rs, l);
    }
    assert(dom_ok(d, rs2)) by {
        assert(has_l3(rs2, l));
        assert forall|c: u32| d.cpus@.contains(c) <==> l3_cpu(rs2, l, c) by {
            if c == r.cpu_id {
                assert(d.cpus@[0] == c);
            }
        }
    }
    ds.insert(p, d);
    assert(ds@ =~= old_ds.insert(p as int, d));
    assert forall|q: int| 0 <= q < ds.len() implies dom_ok(#[trigger] ds@[q], rs2) by {
        if q != p {
            let f = if q < p { old_ds[q] } else { old_ds[q - 1] };
            assert(ds@[q] == f);
            if q > p && q - 1 > p {
                assert(old_ds[p as int].l3 < old_ds[q - 1].l3);
            }
            assert(dom_ok(f, rs));
            lemma_other_dom(f, rs, *r);
        }
    }
    assert forall|a: int, b: int| 0 <= a < b < ds.len() implies ds@[a].l3 < ds@[b].l3 by {
        if b <= p {
        } else if a <= p {
            assert(ds@[b] == old_ds[b - 1]);
            if b - 1 > p {
                assert(old_ds[p as int].l3 < old_ds[b - 1].l3);
            }
        } else {
            assert(ds@[b] == old_ds[b - 1]);
            assert(ds@[a] == old_ds[a - 1]);
        }
    }
    assert forall|l2: u32| has_l3(rs2, l2) implies exists|q: int| 0 <= q < ds.len() && #[trigger] ds@[q].l3 == l2 by {
        if l2 == l {
            assert(ds@[p as int].l3 == l2);
        } else {
            let q = choose|q: int| 0 <= q < old_ds.len() && #[trigger] old_ds[q].l3 == l2;
            if q < p {
                assert(ds@[q].l3 == l2);
            } else {
                assert(ds@[q + 1].l3 == l2);
            }
        }
    }
}

/// Records the reading `r` in the domain table.
fn add_dom(ds: &mut Vec<DomEntry>, Ghost(rs): Ghost<Seq<CpuReading>>, r: &CpuReading, socket: u32)
    requires
        dom_table(old(ds)@, rs),
        size_in_range(*r),
        socket == socket_of(*r),
    ensures
        dom_table(final(ds)@, rs.push(*r)),
{
    let (l3, size) = reading_l3(r);
    let mut p: usize = 0;
    while p < ds.len() && ds[p].l3 < l3
        invariant
            p <= ds.len(),
            ds@ == old(ds)@,
            l3 == l3_of(*r),
            forall|q: int| 0 <= q < p ==> (#[trigger] ds@[q]).l3 < l3,
        decreases ds.len() - p,
    {
        p = p + 1;
    }
    if p < ds.len() && ds[p].l3 == l3 {
        merge_dom_at(ds, Ghost(rs), r, p, size);
    } else {
        let mut cpus: Vec<u32> = Vec::new();
        cpus.push(r.cpu_id);
        assert(cpus@ =~= seq![r.cpu_id]);
        let d = DomEntry { l3, socket, cpus, size };
        insert_dom_at(ds, Ghost(rs), r, p, d);
    }
}


/// Index of the first `c` in `s`; `s.len()` when there is none.
pub open spec fn first_index(s: Seq<char>, c: char) -> nat
    decreases s.len(),
{
    if s.len() == 0 {
        0
    } else if s[0] == c {
        0
    } else {
        1 + first_index(s.drop_first(), c)
    }
}

/// (vendor, model name, flags) as /proc/cpuinfo gives them: the first
/// "vendor_id", "model name" and "flags" (or "Features") entries, each line
/// split at its first ':' and both sides trimmed.
pub open spec fn cpuinfo_scan(ls: Seq<Seq<char>>) -> (Seq<char>, Seq<char>, Seq<Seq<char>>)
    decreases ls.len(),
{
    if ls.len() == 0 {
        ("Unknown"@, "Unknown Processor"@, Seq::empty())
    } else {
        let prev = cpuinfo_scan(ls.drop_last());
        let l = ls.last();
        let i = first_index(l, ':');
        if i < l.len() {
            let key = trim(l.take(i as int));
            let val = trim(l.skip((i + 1) as int));
            if key == "vendor_id"@ && prev.0 == "Unknown"@ {
                (val, prev.1, prev.2)
            } else if key == "model name"@ && prev.1 == "Unknown Processor"@ {
                (prev.0, val, prev.2)
            } else if (key == "flags"@ || key == "Features"@) && prev.2.len() == 0 {
                (prev.0, prev.1, words(val))
            } else {
                prev
            }
        } else {
            prev
        }
    }
}

/// The first index of `c` in `v`.
fn find_char(v: &Vec<char>, c: char) -> (i: usize)
    ensures
        i == first_index(v@, c),
        i <= v.len(),
{
    let mut i: usize = 0;
    assert(v@.skip(0) =~= v@);
    while i < v.len() && v[i] != c
        invariant
            i <= v.len(),
            first_index(v@, c) == i + first_index(v@.skip(i as int), c),
        decreases v.len() - i,
    {
        assert(v@.skip(i as int).drop_first() =~= v@.skip(i + 1));
        i = i + 1;
    }
    i
}

/// Vendor, model name and flags of a /proc/cpuinfo text.
fn scan_cpuinfo(content: &str) -> (res: (Vec<char>, Vec<char>, Vec<Vec<char>>))
    ensures
        res.0@ == cpuinfo_scan(lines(content@)).0,
        res.1@ == cpuinfo_scan(lines(content@)).1,
        views(res.2@) == cpuinfo_scan(lines(content@)).2,
{
    let v = chars_of(content);
    let ls = lines_of(&v);
    let ghost sl = lines(content@);
    let mut vendor = chars_of("Unknown");
    let mut model = chars_of("Unknown Processor");
    let mut flags: Vec<Vec<char>> = Vec::new();
    let mut i: usize = 0;
    assert(sl.take(0) =~= Seq::<Seq<char>>::empty());
    assert(views(flags@) =~= Seq::<Seq<char>>::empty());
    while i < ls.len()
        invariant
            i <= ls.len(),
            views(ls@) == sl,
            sl == lines(content@),
            vendor@ == cpuinfo_scan(sl.take(i as int)).0,
            model@ == cpuinfo_scan(sl.take(i as int)).1,
            views(flags@) == cpuinfo_scan(sl.take(i as int)).2,
        decreases ls.len() - i,
    {
        let l = &ls[i];
        assert(l@ == sl[i as int]);
        assert(sl.take(i + 1).drop_last() =~= sl.take(i as int));
        assert(sl.take(i + 1).last() == sl[i as int]);
        let k = find_char(l, ':');
        if k < l.len() {
            let key = trim_chars(&slice_chars(l, 0, k));
            let val = trim_chars(&slice_chars(l, k + 1, l.len()));
            assert(l@.subrange(0, k as int) =~= l@.take(k as int));
            assert(l@.subrange(k + 1, l.len() as int) =~= l@.skip(k + 1));
            if eq_str(&key, "vendor_id") && eq_str(&vendor, "Unknown") {
                vendor = val;
            } else if eq_str(&key, "model name") && eq_str(&model, "Unknown Processor") {
                model = val;
            } else if (eq_str(&key, "flags") || eq_str(&key, "Features")) && flags.len() == 0 {
                flags = words_of(&val);
            }
        }
        i = i + 1;
    }
    assert(sl.take(ls.len() as int) =~= sl);
    (vendor, model, flags)
}

/// Whether the flag list holds `name`.
fn has_flag(flags: &Vec<Vec<char>>, name: &str) -> (b: bool)
    ensures
        b == views(flags@).contains(name@),
{
    let mut i: usize = 0;
    while i < flags.len()
        invariant
            i <= flags.len(),
            forall|q: int| 0 <= q < i ==> flags@[q]@ != name@,
        decreases flags.len() - i,
    {
        if eq_str(&flags[i], name) {
            assert(views(flags@)[i as int] == name@);
            return true;
        }
        i = i + 1;
    }
    assert forall|q: int| 0 <= q < views(flags@).len() implies views(flags@)[q] != name@ by {
        assert(views(flags@)[q] == flags@[q]@);
    }
    false
}

/// The siblings of a reading, parsed.
fn reading_siblings(r: &CpuReading) -> (sib: Vec<u32>)
    ensures
        strictly_increasing(sib@),
        forall|t: u32| sib@.contains(t) <==> in_siblings(*r, t),
{
    match &r.thread_siblings_list {
        Some(s) => parse_cpu_list(s.as_str()),
        None => {
            let mut s = String::new();
            push_decimal(&mut s, r.cpu_id as u64);
            assert(s@ =~= dec(r.cpu_id as nat));
            parse_cpu_list(s.as_str())
        },
    }
}

/// Groups the readings into the core table, the domain table and the set of packages.
fn gather(readings: &Vec<CpuReading>) -> (res: (Vec<CoreEntry>, Vec<DomEntry>, Vec<u32>))
    requires
        forall|i: int| 0 <= i < readings@.len() ==> size_in_range(#[trigger] readings@[i]),
    ensures
        core_table(res.0@, readings@),
        dom_table(res.1@, readings@),
        strictly_increasing(res.2@),
        forall|s: u32| res.2@.contains(s) <==> has_socket(readings@, s),
{
    let mut cs: Vec<CoreEntry> = Vec::new();
    let mut ds: Vec<DomEntry> = Vec::new();
    let mut sockets: Vec<u32> = Vec::new();
    let mut i: usize = 0;
    let ghost rs = readings@;
    assert(rs.take(0) =~= Seq::<CpuReading>::empty());
    while i < readings.len()
        invariant
            i <= readings.len(),
            rs == readings@,
            forall|q: int| 0 <= q < rs.len() ==> size_in_range(#[trigger] rs[q]),
            core_table(cs@, rs.take(i as int)),
            dom_table(ds@, rs.take(i as int)),
            strictly_increasing(sockets@),
            forall|s: u32| sockets@.contains(s) <==> has_socket(rs.take(i as int), s),
        decreases readings.len() - i,
    {
        let r = &readings[i];
        let ghost pre = rs.take(i as int);
        assert(pre.push(*r) =~= rs.take(i + 1));
        proof { lemma_push_facts(pre, *r); }
        let sib = reading_siblings(r);
        let socket = match read_attr_u32(&r.physical_package_id) { Some(v) => v, None => 0 };
        add_core(&mut cs, Ghost(pre), r, &sib);
        add_dom(&mut ds, Ghost(pre), r, socket);
        insert_sorted(&mut sockets, socket);
        i = i + 1;
    }
    assert(rs.take(readings.len() as int) =~= rs);
    (cs, ds, sockets)
}


/// The (package, core) key of a core pair.
pub open spec fn pkey(p: CorePair) -> (u32, u32) {
    (p.socket_id, p.physical_core_id)
}

/// Core `k` lies on package `s` and has a thread sharing L3 cache `l`.
pub open spec fn core_in_domain(rs: Seq<CpuReading>, k: (u32, u32), l: u32, s: u32) -> bool {
    &&& has_core(rs, k)
    &&& k.0 == s
    &&& exists|c: u32| #[trigger] l3_cpu(rs, l, c) && core_thread(rs, k, c)
}

/// A core pair describes core `pkey(p)` exactly.
pub open spec fn pair_ok(p: CorePair, rs: Seq<CpuReading>) -> bool {
    &&& has_core(rs, pkey(p))
    &&& strictly_increasing(p.thread_ids@)
    &&& forall|t: u32| p.thread_ids@.contains(t) <==> core_thread(rs, pkey(p), t)
    &&& p.core_type == core_kind(rs, pkey(p))
    &&& p.max_freq_khz == core_freq(rs, pkey(p))
}

/// CPU `c` is the lowest CPU of cache `l` that is a thread of core `k`.
pub open spec fn first_shared(rs: Seq<CpuReading>, l: u32, k: (u32, u32), c: u32) -> bool {
    &&& l3_cpu(rs, l, c)
    &&& core_thread(rs, k, c)
    &&& forall|c2: u32| c2 < c ==> !(#[trigger] l3_cpu(rs, l, c2) && core_thread(rs, k, c2))
}

/// `ps` lists, once each, exactly the cores of package `s` with a thread in
/// cache `l`, ordered by their lowest CPU in the cache, then by key.
pub open spec fn domain_pairs(ps: Seq<CorePair>, rs: Seq<CpuReading>, l: u32, s: u32) -> bool {
    &&& forall|i: int| 0 <= i < ps.len() ==> pair_ok(#[trigger] ps[i], rs) && core_in_domain(rs, pkey(ps[i]), l, s)
    &&& forall|i: int, j: int| 0 <= i < j < ps.len() ==> pkey(ps[i]) != pkey(ps[j])
    &&& forall|k: (u32, u32)| core_in_domain(rs, k, l, s) ==> exists|i: int| 0 <= i < ps.len() && #[trigger] pkey(ps[i]) == k
    &&& forall|i: int, j: int, c1: u32, c2: u32|
        0 <= i < j < ps.len() && #[trigger] first_shared(rs, l, pkey(ps[i]), c1) && #[trigger] first_shared(rs, l, pkey(ps[j]), c2)
        ==> c1 < c2 || (c1 == c2 && key_lt(pkey(ps[i]), pkey(ps[j])))
}

/// 3D V-Cache dies carry at least 64 MiB of L3.
pub open spec fn vcache_threshold() -> nat {
    67108864
}

/// A cache domain describes L3 cache `d.l3_cache_id` of `rs` exactly.
pub open spec fn domain_ok(d: CacheDomain, rs: Seq<CpuReading>) -> bool {
    &&& has_l3(rs, d.l3_cache_id)
    &&& d.socket_id == l3_socket(rs, d.l3_cache_id)
    &&& strictly_increasing(d.cpu_ids@)
    &&& forall|c: u32| d.cpu_ids@.contains(c) <==> l3_cpu(rs, d.l3_cache_id, c)
    &&& d.size_bytes == l3_size(rs, d.l3_cache_id)
    &&& d.has_3d_vcache == (d.size_bytes >= vcache_threshold())
    &&& domain_pairs(d.core_pairs@, rs, d.l3_cache_id, d.socket_id)
}

/// One domain per L3 cache of `rs`, in ascending id order.
pub open spec fn domains_ok(ds: Seq<CacheDomain>, rs: Seq<CpuReading>) -> bool {
    &&& forall|p: int, q: int| 0 <= p < q < ds.len() ==> ds[p].l3_cache_id < ds[q].l3_cache_id
    &&& forall|p: int| 0 <= p < ds.len() ==> domain_ok(#[trigger] ds[p], rs)
    &&& forall|l: u32| has_l3(rs, l) ==> exists|p: int| 0 <= p < ds.len() && #[trigger] ds[p].l3_cache_id == l
}

/// The core pair of a core table entry.
fn pair_of(e: &CoreEntry) -> (p: CorePair)
    ensures
        pkey(p) == ekey(*e),
        p.thread_ids@ == e.threads@,
        p.core_type == e.kind,
        p.max_freq_khz == e.freq,
{
    CorePair {
        physical_core_id: e.core,
        socket_id: e.socket,
        thread_ids: copy_u32s(&e.threads),
        core_type: e.kind,
        max_freq_khz: e.freq,
    }
}

/// The core pairs of domain `d`: for each of its CPUs in ascending order, the
/// not yet listed cores of its package that have that CPU as a thread, in key order.
fn domain_core_pairs(cs: &Vec<CoreEntry>, d: &DomEntry, Ghost(rs): Ghost<Seq<CpuReading>>) -> (ps: Vec<CorePair>)
    requires
        core_table(cs@, rs),
        dom_ok(*d, rs),
    ensures
        domain_pairs(ps@, rs, d.l3, d.socket),
{
    let mut ps: Vec<CorePair> = Vec::new();
    let mut visited: Vec<bool> = Vec::new();
    let mut z: usize = 0;
    while z < cs.len()
        invariant
            z <= cs.len(),
            visited.len() == z,
            forall|p: int| 0 <= p < z ==> !visited@[p],
        decreases cs.len() - z,
    {
        visited.push(false);
        z = z + 1;
    }
    let ghost l = d.l3;
    let ghost s = d.socket;
    // For each listed pair: the index of the CPU it was found at, and its core's place in `cs`.
    let ghost mut cis: Seq<int> = Seq::empty();
    let ghost mut srcs: Seq<int> = Seq::empty();
    let mut ci: usize = 0;
    while ci < d.cpus.len()
        invariant
            ci <= d.cpus.len(),
            core_table(cs@, rs),
            dom_ok(*d, rs),
            l == d.l3,
            s == d.socket,
            visited.len() == cs.len(),
            cis.len() == ps@.len(),
            srcs.len() == ps@.len(),
            forall|p: int| 0 <= p < cs.len() ==> (#[trigger] visited@[p] <==> exists|i: int| 0 <= i < ps@.len() && #[trigger] pkey(ps@[i]) == ekey(cs@[p])),
            forall|i: int| 0 <= i < ps@.len() ==> pair_ok(#[trigger] ps@[i], rs) && core_in_domain(rs, pkey(ps@[i]), l, s),
            forall|i: int, j: int| 0 <= i < j < ps@.len() ==> pkey(ps@[i]) != pkey(ps@[j]),
            forall|a: int, p: int| 0 <= a < ci && 0 <= p < cs.len() && cs@[p].socket == s && (#[trigger] cs@[p].threads@).contains(#[trigger] d.cpus@[a]) ==> visited@[p],
            forall|i: int| 0 <= i < ps@.len() ==> 0 <= #[trigger] cis[i] < ci && 0 <= srcs[i] < cs.len()
                && pkey(ps@[i]) == ekey(cs@[srcs[i]])
                && first_shared(rs, l, pkey(ps@[i]), d.cpus@[cis[i]]),
            forall|i: int, j: int| 0 <= i < j < ps@.len() ==> #[trigger] cis[i] < #[trigger] cis[j] || (cis[i] == cis[j] && srcs[i] < srcs[j]),
        decreases d.cpus.len() - ci,
    {
        let c = d.cpus[ci];
        let mut p: usize = 0;
        while p < cs.len()
            invariant
                ci < d.cpus.len(),
                c == d.cpus@[ci as int],
                p <= cs.len(),
                core_table(cs@, rs),
                dom_ok(*d, rs),
                l == d.l3,
                s == d.socket,
                visited.len() == cs.len(),
                cis.len() == ps@.len(),
                srcs.len() == ps@.len(),
                forall|q: int| 0 <= q < cs.len() ==> (#[trigger] visited@[q] <==> exists|i: int| 0 <= i < ps@.len() && #[trigger] pkey(ps@[i]) == ekey(cs@[q])),
                forall|i: int| 0 <= i < ps@.len() ==> pair_ok(#[trigger] ps@[i], rs) && core_in_domain(rs, pkey(ps@[i]), l, s),
                forall|i: int, j: int| 0 <= i < j < ps@.len() ==> pkey(ps@[i]) != pkey(ps@[j]),
                forall|a: int, q: int| 0 <= a < ci && 0 <= q < cs.len() && cs@[q].socket == s && (#[trigger] cs@[q].threads@).contains(#[trigger] d.cpus@[a]) ==> visited@[q],
                forall|q: int| 0 <= q < p && cs@[q].socket == s && (#[trigger] cs@[q].threads@).contains(c) ==> visited@[q],
                forall|i: int| 0 <= i < ps@.len() ==> 0 <= #[trigger] cis[i] <= ci && 0 <= srcs[i] < cs.len()
                    && pkey(ps@[i]) == ekey(cs@[srcs[i]])
                    && first_shared(rs, l, pkey(ps@[i]), d.cpus@[cis[i]]),
                forall|i: int| 0 <= i < ps@.len() && #[trigger] cis[i] == ci ==> srcs[i] < p,
                forall|i: int, j: int| 0 <= i < j < ps@.len() ==> #[trigger] cis[i] < #[trigger] cis[j] || (cis[i] == cis[j] && srcs[i] < srcs[j]),
            decreases cs.len() - p,
        {
            if cs[p].socket == d.socket && !visited[p] && vec_contains(&cs[p].threads, c) {
                let ghost old_ps = ps@;
                let ghost old_visited = visited@;
                let pair = pair_of(&cs[p]);
                proof {
                    let e = cs@[p as int];
                    let k = ekey(e);
                    assert(entry_ok(e, rs));
                    assert(d.cpus@.contains(c));
                    assert(l3_cpu(rs, l, c));
                    assert(core_thread(rs, k, c));
                    assert(core_in_domain(rs, pkey(pair), l, s));
                    assert forall|i: int| 0 <= i < old_ps.len() implies pkey(old_ps[i]) != pkey(pair) by {
                        if pkey(old_ps[i]) == pkey(pair) {
                            assert(old_visited[p as int]);
                        }
                    }
                    assert forall|c2: u32| c2 < c implies !(#[trigger] l3_cpu(rs, l, c2) && core_thread(rs, k, c2)) by {
                        if l3_cpu(rs, l, c2) && core_thread(rs, k, c2) {
                            assert(d.cpus@.contains(c2));
                            let a = choose|a: int| 0 <= a < d.cpus@.len() && d.cpus@[a] == c2;
                            if a >= ci {
                                assert(d.cpus@[ci as int] <= d.cpus@[a]);
                            }
                            assert(e.threads@.contains(d.cpus@[a]));
                            assert(old_visited[p as int]);
                        }
                    }
                    assert(first_shared(rs, l, pkey(pair), d.cpus@[ci as int]));
                }
                ps.push(pair);
                visited.set(p, true);
                proof {
                    cis = cis.push(ci as int);
                    srcs = srcs.push(p as int);
                    assert forall|q: int| 0 <= q < cs.len() implies (#[trigger] visited@[q] <==> exists|i: int| 0 <= i < ps@.len() && #[trigger] pkey(ps@[i]) == ekey(cs@[q])) by {
                        if q == p {
                            assert(pkey(ps@[old_ps.len() as int]) == ekey(cs@[q]));
                        } else {
                            assert(ekey(cs@[q]) != ekey(cs@[p as int])) by {
                                if q < p {
                                    assert(key_lt(ekey(cs@[q]), ekey(cs@[p as int])));
                                } else {
                                    assert(key_lt(ekey(cs@[p as int]), ekey(cs@[q])));
                                }
                            }
                            if old_visited[q] {
                                let i = choose|i: int| 0 <= i < old_ps.len() && #[trigger] pkey(old_ps[i]) == ekey(cs@[q]);
                                assert(pkey(ps@[i]) == ekey(cs@[q]));
                            }
                            if exists|i: int| 0 <= i < ps@.len() && #[trigger] pkey(ps@[i]) == ekey(cs@[q]) {
                                let i = choose|i: int| 0 <= i < ps@.len() && #[trigger] pkey(ps@[i]) == ekey(cs@[q]);
                                assert(i < old_ps.len());
                                assert(pkey(old_ps[i]) == ekey(cs@[q]));
                            }
                        }
                    }
                    assert forall|i: int, j: int| 0 <= i < j < ps@.len() implies #[trigger] cis[i] < #[trigger] cis[j] || (cis[i] == cis[j] && srcs[i] < srcs[j]) by {
                        if j == ps@.len() - 1 && i < j {
                            assert(cis[i] <= ci);
                            if cis[i] == ci {
                                assert(srcs[i] < p);
                            }
                        }
                    }
                }
            }
            p = p + 1;
        }
        proof {
            assert forall|i: int| 0 <= i < ps@.len() implies 0 <= #[trigger] cis[i] < ci + 1 by {}
        }
        ci = ci + 1;
    }
    proof {
        assert forall|k: (u32, u32)| core_in_domain(rs, k, l, s) implies exists|i: int| 0 <= i < ps@.len() && #[trigger] pkey(ps@[i]) == k by {
            let c = choose|c: u32| #[trigger] l3_cpu(rs, l, c) && core_thread(rs, k, c);
            let p = choose|p: int| 0 <= p < cs@.len() && #[trigger] ekey(cs@[p]) == k;
            assert(entry_ok(cs@[p], rs));
            assert(cs@[p].threads@.contains(c));
            assert(d.cpus@.contains(c));
            let a = choose|a: int| 0 <= a < d.cpus@.len() && d.cpus@[a] == c;
            assert(visited@[p]);
        }
        assert forall|i: int, j: int, c1: u32, c2: u32|
            0 <= i < j < ps@.len() && #[trigger] first_shared(rs, l, pkey(ps@[i]), c1) && #[trigger] first_shared(rs, l, pkey(ps@[j]), c2)
            implies c1 < c2 || (c1 == c2 && key_lt(pkey(ps@[i]), pkey(ps@[j]))) by {
            let x1 = d.cpus@[cis[i]];
            let x2 = d.cpus@[cis[j]];
            assert(first_shared(rs, l, pkey(ps@[i]), x1));
            assert(first_shared(rs, l, pkey(ps@[j]), x2));
            if c1 < x1 {
                assert(!(l3_cpu(rs, l, c1) && core_thread(rs, pkey(ps@[i]), c1)));
            } else if x1 < c1 {
                assert(!(l3_cpu(rs, l, x1) && core_thread(rs, pkey(ps@[i]), x1)));
            }
            if c2 < x2 {
                assert(!(l3_cpu(rs, l, c2) && core_thread(rs, pkey(ps@[j]), c2)));
            } else if x2 < c2 {
                assert(!(l3_cpu(rs, l, x2) && core_thread(rs, pkey(ps@[j]), x2)));
            }
            assert(c1 == x1 && c2 == x2);
            if cis[i] < cis[j] {
                assert(d.cpus@[cis[i]] < d.cpus@[cis[j]]);
            } else {
                assert(srcs[i] < srcs[j]);
                assert(key_lt(ekey(cs@[srcs[i]]), ekey(cs@[srcs[j]])));
            }
        }
    }
    ps
}

/// Whether the vector holds `x`.
fn vec_contains(v: &Vec<u32>, x: u32) -> (b: bool)
    ensures
        b == v@.contains(x),
{
    let mut i: usize = 0;
    while i < v.len()
        invariant
            i <= v.len(),
            forall|q: int| 0 <= q < i ==> v@[q] != x,
        decreases v.len() - i,
    {
        if v[i] == x {
            return true;
        }
        i = i + 1;
    }
    false
}


/// The distinct physical cores of `rs`.
pub open spec fn core_keys(rs: Seq<CpuReading>) -> Set<(u32, u32)> {
    Set::new(|k: (u32, u32)| has_core(rs, k))
}

/// The distinct packages of `rs`.
pub open spec fn sockets_of(rs: Seq<CpuReading>) -> Set<u32> {
    Set::new(|s: u32| has_socket(rs, s))
}

/// Some core of `rs` has type `t` (by its first reading).
pub open spec fn has_kind(rs: Seq<CpuReading>, t: CoreType) -> bool {
    exists|k: (u32, u32)| has_core(rs, k) && #[trigger] core_kind(rs, k) == t
}

/// Readings the topology can be assembled from: at most `u32::MAX` of them,
/// each with an L3 size that fits in a `u64`.
pub open spec fn readings_in_range(rs: Seq<CpuReading>) -> bool {
    &&& rs.len() <= u32::MAX
    &&& forall|i: int| 0 <= i < rs.len() ==> size_in_range(#[trigger] rs[i])
}

/// The cache domains built from the tables.
fn build_domains(cs: &Vec<CoreEntry>, ds: &Vec<DomEntry>, Ghost(rs): Ghost<Seq<CpuReading>>) -> (out: Vec<CacheDomain>)
    requires
        core_table(cs@, rs),
        dom_table(ds@, rs),
    ensures
        domains_ok(out@, rs),
{
    let mut out: Vec<CacheDomain> = Vec::new();
    let mut i: usize = 0;
    while i < ds.len()
        invariant
            i <= ds.len(),
            core_table(cs@, rs),
            dom_table(ds@, rs),
            out@.len() == i,
            forall|q: int| 0 <= q < i ==> (#[trigger] out@[q]).l3_cache_id == ds@[q].l3,
            forall|q: int| 0 <= q < i ==> domain_ok(#[trigger] out@[q], rs),
        decreases ds.len() - i,
    {
        let d = &ds[i];
        assert(dom_ok(*d, rs));
        let core_pairs = domain_core_pairs(cs, d, Ghost(rs));
        let dom = CacheDomain {
            l3_cache_id: d.l3,
            socket_id: d.socket,
            cpu_ids: copy_u32s(&d.cpus),
            core_pairs,
            size_bytes: d.size,
            has_3d_vcache: d.size >= 67108864,
        };
        out.push(dom);
        i = i + 1;
    }
    proof {
        assert forall|l: u32| has_l3(rs, l) implies exists|p: int| 0 <= p < out@.len() && #[trigger] out@[p].l3_cache_id == l by {
            let p = choose|p: int| 0 <= p < ds@.len() && #[trigger] ds@[p].l3 == l;
            assert(out@[p].l3_cache_id == l);
        }
    }
    out
}

/// Assembles the host CPU topology from /proc/cpuinfo and the readings of
/// the online CPUs.
pub fn build_topology(cpuinfo: &str, readings: &Vec<CpuReading>) -> (t: CpuTopology)
    requires
        readings_in_range(readings@),
    ensures
        t.vendor@ == cpuinfo_scan(lines(cpuinfo@)).0,
        t.model_name@ == cpuinfo_scan(lines(cpuinfo@)).1,
        t.has_invtsc == (cpuinfo_scan(lines(cpuinfo@)).2.contains("invtsc"@)
            || cpuinfo_scan(lines(cpuinfo@)).2.contains("constant_tsc"@)),
        t.has_svm_or_vmx == (cpuinfo_scan(lines(cpuinfo@)).2.contains("svm"@)
            || cpuinfo_scan(lines(cpuinfo@)).2.contains("vmx"@)),
        t.has_topoext == cpuinfo_scan(lines(cpuinfo@)).2.contains("topoext"@),
        t.total_threads == readings@.len(),
        t.total_physical_cores == core_keys(readings@).len(),
        t.sockets == (if sockets_of(readings@).len() > 1 { sockets_of(readings@).len() } else { 1 }),
        t.has_smt == (readings@.len() > core_keys(readings@).len()),
        t.is_hybrid == (has_kind(readings@, CoreType::Performance) && has_kind(readings@, CoreType::Efficient)),
        domains_ok(t.cache_domains@, readings@),
{
    let ghost rs = readings@;
    let (vendor, model, flags) = scan_cpuinfo(cpuinfo);
    let (cs, ds, sockets) = gather(readings);
    let cache_domains = build_domains(&cs, &ds, Ghost(rs));
    let mut has_p = false;
    let mut has_e = false;
    let mut i: usize = 0;
    while i < cs.len()
        invariant
            i <= cs.len(),
            core_table(cs@, rs),
            has_p == exists|q: int| 0 <= q < i && (#[trigger] cs@[q]).kind == CoreType::Performance,
            has_e == exists|q: int| 0 <= q < i && (#[trigger] cs@[q]).kind == CoreType::Efficient,
        decreases cs.len() - i,
    {
        if cs[i].kind == CoreType::Performance {
            has_p = true;
        }
        if cs[i].kind == CoreType::Efficient {
            has_e = true;
        }
        i = i + 1;
    }
    proof {
        assert forall|t: CoreType| (exists|q: int| 0 <= q < cs@.len() && (#[trigger] cs@[q]).kind == t) <==> has_kind(rs, t) by {
            if exists|q: int| 0 <= q < cs@.len() && (#[trigger] cs@[q]).kind == t {
                let q = choose|q: int| 0 <= q < cs@.len() && (#[trigger] cs@[q]).kind == t;
                assert(entry_ok(cs@[q], rs));
                assert(core_kind(rs, ekey(cs@[q])) == t);
            }
            if has_kind(rs, t) {
                let k = choose|k: (u32, u32)| has_core(rs, k) && #[trigger] core_kind(rs, k) == t;
                let q = choose|q: int| 0 <= q < cs@.len() && #[trigger] ekey(cs@[q]) == k;
                assert(entry_ok(cs@[q], rs));
                assert(cs@[q].kind == t);
            }
        }
        let keys = cs@.map_values(|e: CoreEntry| ekey(e));
        assert(keys.no_duplicates()) by {
            assert forall|a: int, b: int| 0 <= a < keys.len() && 0 <= b < keys.len() && a != b implies keys[a] != keys[b] by {
                if a < b {
                    assert(key_lt(ekey(cs@[a]), ekey(cs@[b])));
                } else {
                    assert(key_lt(ekey(cs@[b]), ekey(cs@[a])));
                }
            }
        }
        keys.unique_seq_to_set();
        assert(keys.to_set() =~= core_keys(rs)) by {
            assert forall|k: (u32, u32)| keys.to_set().contains(k) <==> core_keys(rs).contains(k) by {
                if keys.to_set().contains(k) {
                    let q = choose|q: int| 0 <= q < keys.len() && keys[q] == k;
                    assert(entry_ok(cs@[q], rs));
                }
                if core_keys(rs).contains(k) {
                    let q = choose|q: int| 0 <= q < cs@.len() && #[trigger] ekey(cs@[q]) == k;
                    assert(keys[q] == k);
                }
            }
        }
        assert(sockets@.no_duplicates());
        sockets@.unique_seq_to_set();
        assert(sockets@.to_set() =~= sockets_of(rs));
        let all_keys = rs.map_values(|r: CpuReading| core_key(r));
        all_keys.lemma_cardinality_of_set();
        assert(all_keys.to_set() =~= core_keys(rs)) by {
            assert forall|k: (u32, u32)| all_keys.to_set().contains(k) <==> core_keys(rs).contains(k) by {
                if all_keys.to_set().contains(k) {
                    let q = choose|q: int| 0 <= q < all_keys.len() && all_keys[q] == k;
                    assert(core_key(rs[q]) == k);
                }
                if core_keys(rs).contains(k) {
                    let q = choose|q: int| 0 <= q < rs.len() && #[trigger] core_key(rs[q]) == k;
                    assert(all_keys[q] == k);
                }
            }
        }
        let all_sockets = rs.map_values(|r: CpuReading| socket_of(r));
        all_sockets.lemma_cardinality_of_set();
        assert(all_sockets.to_set() =~= sockets_of(rs)) by {
            assert forall|x: u32| all_sockets.to_set().contains(x) <==> sockets_of(rs).contains(x) by {
                if all_sockets.to_set().contains(x) {
                    let q = choose|q: int| 0 <= q < all_sockets.len() && all_sockets[q] == x;
                    assert(socket_of(rs[q]) == x);
                }
                if sockets_of(rs).contains(x) {
                    let q = choose|q: int| 0 <= q < rs.len() && #[trigger] socket_of(rs[q]) == x;
                    assert(all_sockets[q] == x);
                }
            }
        }
    }
    let sockets_n: u32 = if sockets.len() > 1 { sockets.len() as u32 } else { 1 };
    let cores_n = cs.len() as u32;
    let threads_n = readings.len() as u32;
    CpuTopology {
        model_name: string_of(&model),
        vendor: string_of(&vendor),
        sockets: sockets_n,
        total_physical_cores: cores_n,
        total_threads: threads_n,
        cache_domains,
        has_smt: threads_n > cores_n,
        is_hybrid: has_p && has_e,
        has_invtsc: has_flag(&flags, "invtsc") || has_flag(&flags, "constant_tsc"),
        has_svm_or_vmx: has_flag(&flags, "svm") || has_flag(&flags, "vmx"),
        has_topoext: has_flag(&flags, "topoext"),
    }
}


/// Whether the topology can be assembled from these readings.
pub fn readings_fit(readings: &Vec<CpuReading>) -> (b: bool)
    ensures
        b == readings_in_range(readings@),
{
    if readings.len() > 4294967295 {
        return false;
    }
    let mut i: usize = 0;
    while i < readings.len()
        invariant
            i <= readings.len(),
            forall|q: int| 0 <= q < i ==> size_in_range(#[trigger] readings@[q]),
        decreases readings.len() - i,
    {
        match &readings[i].l3_size {
            Some(s) => {
                if !size_text_fits(s.as_str()) {
                    return false;
                }
            },
            None => {},
        }
        i = i + 1;
    }
    true
}

/// The online CPUs named by the "online" attribute; an error when it names none.
pub fn online_cpu_ids(online: &str) -> (r: Result<Vec<u32>, ClerestoryError>)
    ensures
        match r {
            Ok(v) => strictly_increasing(v@) && v@.len() > 0
                && forall|c: u32| v@.contains(c) <==> cpu_listed(online@, c),
            Err(e) => (forall|c: u32| !cpu_listed(online@, c))
                && (e matches ClerestoryError::ProbeError { path, message }
                && path@ == "sys/devices/system/cpu/online"@
                && message@ == "No online CPUs found"@),
        },
{
    let cpus = parse_cpu_list(online);
    if cpus.len() == 0 {
        assert forall|c: u32| !cpu_listed(online@, c) by {
            assert(!cpus@.contains(c));
        }
        return Err(ClerestoryError::ProbeError {
            path: string_from("sys/devices/system/cpu/online"),
            message: string_from("No online CPUs found"),
        });
    }
    assert(cpus@.contains(cpus@[0]));
    Ok(cpus)
}


/// No two readings are of the same CPU.
pub open spec fn distinct_cpus(rs: Seq<CpuReading>) -> bool {
    forall|i: int, j: int| 0 <= i < j < rs.len() ==> rs[i].cpu_id != rs[j].cpu_id
}

/// The cache domains partition the online CPUs: each CPU lies in exactly one
/// domain, the one of its L3 cache.
pub proof fn law_each_cpu_in_one_domain(ds: Seq<CacheDomain>, rs: Seq<CpuReading>, j: int)
    requires
        domains_ok(ds, rs),
        distinct_cpus(rs),
        0 <= j < rs.len(),
    ensures
        exists|p: int| 0 <= p < ds.len() && (#[trigger] ds[p]).l3_cache_id == l3_of(rs[j])
            && ds[p].cpu_ids@.contains(rs[j].cpu_id),
        forall|p: int| 0 <= p < ds.len() && (#[trigger] ds[p]).cpu_ids@.contains(rs[j].cpu_id)
            ==> ds[p].l3_cache_id == l3_of(rs[j]),
{
    let l = l3_of(rs[j]);
    let c = rs[j].cpu_id;
    assert(has_l3(rs, l));
    let p = choose|p: int| 0 <= p < ds.len() && #[trigger] ds[p].l3_cache_id == l;
    assert(domain_ok(ds[p], rs));
    assert(l3_cpu(rs, l, c));
    assert forall|q: int| 0 <= q < ds.len() && (#[trigger] ds[q]).cpu_ids@.contains(c) implies ds[q].l3_cache_id == l by {
        assert(domain_ok(ds[q], rs));
        assert(l3_cpu(rs, ds[q].l3_cache_id, c));
        let j2 = choose|j2: int| 0 <= j2 < rs.len() && #[trigger] l3_of(rs[j2]) == ds[q].l3_cache_id && rs[j2].cpu_id == c;
        if j2 != j {
            if j2 < j {
                assert(rs[j2].cpu_id != rs[j].cpu_id);
            } else {
                assert(rs[j].cpu_id != rs[j2].cpu_id);
            }
        }
    }
}

} // verus!
