//! NUMA nodes and Hugepages memory inspection.

use crate::model::host::{HugepageTier, NumaNode};
use crate::probe::cpu::{cpu_listed, parse_cpu_list, strictly_increasing};
use crate::probe::topology::{attr_u64, read_attr_u64};
use crate::text::{
    chars_of, lines, lines_of, parse_u32_chars, parse_u64_chars, slice_chars, spec_parse_u32,
    spec_parse_u64, starts_with, starts_with_str, has_substring, contains_str, string_from,
    views, words, words_of,
};
use vstd::prelude::*;

verus! {

/// Bytes given by a meminfo line "Key:   <n> kB": the next-to-last word read
/// as KiB; 0 when the line has fewer than two words or that word is not a number.
pub open spec fn kb_line_value(s: Seq<char>) -> nat {
    let w = words(s);
    if w.len() >= 2 {
        match spec_parse_u64(w[w.len() - 2]) {
            Some(kb) => (kb * 1024) as nat,
            None => 0,
        }
    } else {
        0
    }
}

/// The byte count of a line fits in a `u64`.
pub open spec fn kb_line_in_range(s: Seq<char>) -> bool {
    kb_line_value(s) <= u64::MAX
}

fn kb_of_line(v: &Vec<char>) -> (r: u64)
    requires
        kb_line_in_range(v@),
    ensures
        r == kb_line_value(v@),
{
    let w = words_of(v);
    assert(views(w@).len() == w@.len());
    if w.len() >= 2 {
        assert(views(w@)[w.len() - 2] == w@[w.len() - 2]@);
        match parse_u64_chars(&w[w.len() - 2]) {
            Some(kb) => kb * 1024,
            None => 0,
        }
    } else {
        0
    }
}

/// Parses a meminfo line such as "MemTotal:  16384 kB" into bytes.
pub fn parse_kb_line(line: &str) -> (r: u64)
    requires
        kb_line_in_range(line@),
    ensures
        r == kb_line_value(line@),
{
    let v = chars_of(line);
    kb_of_line(&v)
}

/// (total, free) bytes of a per-node meminfo: the last line mentioning
/// "MemTotal:" gives the total, the last other line mentioning "MemFree:" the free amount.
pub open spec fn node_meminfo(ls: Seq<Seq<char>>) -> (nat, nat)
    decreases ls.len(),
{
    if ls.len() == 0 {
        (0, 0)
    } else {
        let (t, f) = node_meminfo(ls.drop_last());
        let l = ls.last();
        if has_substring(l, "MemTotal:"@) {
            (kb_line_value(l), f)
        } else if has_substring(l, "MemFree:"@) {
            (t, kb_line_value(l))
        } else {
            (t, f)
        }
    }
}

/// Every line that the per-node parse reads has a byte count that fits.
pub open spec fn node_meminfo_in_range(ls: Seq<Seq<char>>) -> bool {
    forall|i: int| 0 <= i < ls.len() && (has_substring(ls[i], "MemTotal:"@) || has_substring(ls[i], "MemFree:"@))
        ==> kb_line_in_range(#[trigger] ls[i])
}

/// (total, free) bytes of the global /proc/meminfo: the last "MemTotal:" line
/// gives the total; the first "MemAvailable:" or "MemFree:" line with a nonzero
/// value gives the free amount.
pub open spec fn global_meminfo(ls: Seq<Seq<char>>) -> (nat, nat)
    decreases ls.len(),
{
    if ls.len() == 0 {
        (0, 0)
    } else {
        let (t, f) = global_meminfo(ls.drop_last());
        let l = ls.last();
        if starts_with(l, "MemTotal:"@) {
            (kb_line_value(l), f)
        } else if (starts_with(l, "MemAvailable:"@) || starts_with(l, "MemFree:"@)) && f == 0 {
            (t, kb_line_value(l))
        } else {
            (t, f)
        }
    }
}

/// Every line that the global parse reads has a byte count that fits.
pub open spec fn global_meminfo_in_range(ls: Seq<Seq<char>>) -> bool
    decreases ls.len(),
{
    if ls.len() == 0 {
        true
    } else {
        let l = ls.last();
        &&& global_meminfo_in_range(ls.drop_last())
        &&& starts_with(l, "MemTotal:"@) ==> kb_line_in_range(l)
        &&& (!starts_with(l, "MemTotal:"@) && (starts_with(l, "MemAvailable:"@) || starts_with(l, "MemFree:"@))
            && global_meminfo(ls.drop_last()).1 == 0) ==> kb_line_in_range(l)
    }
}

/// Reads (total, free) bytes from a per-node meminfo file's contents.
pub fn parse_node_meminfo(content: &str) -> (r: (u64, u64))
    requires
        node_meminfo_in_range(lines(content@)),
    ensures
        r.0 == node_meminfo(lines(content@)).0,
        r.1 == node_meminfo(lines(content@)).1,
{
    let v = chars_of(content);
    let ls = lines_of(&v);
    let ghost sl = lines(content@);
    let mut total: u64 = 0;
    let mut free: u64 = 0;
    let mut i: usize = 0;
    assert(sl.take(0) =~= Seq::<Seq<char>>::empty());
    while i < ls.len()
        invariant
            i <= ls.len(),
            views(ls@) == sl,
            node_meminfo_in_range(sl),
            total == node_meminfo(sl.take(i as int)).0,
            free == node_meminfo(sl.take(i as int)).1,
        decreases ls.len() - i,
    {
        let l = &ls[i];
        assert(l@ == sl[i as int]);
        assert(sl.take(i + 1).drop_last() =~= sl.take(i as int));
        assert(sl.take(i + 1).last() == sl[i as int]);
        if contains_str(l, "MemTotal:") {
            total = kb_of_line(l);
        } else if contains_str(l, "MemFree:") {
            free = kb_of_line(l);
        }
        i = i + 1;
    }
    assert(sl.take(ls.len() as int) =~= sl);
    (total, free)
}

/// Whether a per-node meminfo can be read without overflow.
pub fn node_meminfo_fits(content: &str) -> (b: bool)
    ensures
        b == node_meminfo_in_range(lines(content@)),
{
    let v = chars_of(content);
    let ls = lines_of(&v);
    let ghost sl = lines(content@);
    let mut i: usize = 0;
    while i < ls.len()
        invariant
            i <= ls.len(),
            views(ls@) == sl,
            sl == lines(content@),
            forall|q: int| 0 <= q < i && (has_substring(sl[q], "MemTotal:"@) || has_substring(sl[q], "MemFree:"@))
                ==> kb_line_in_range(#[trigger] sl[q]),
        decreases ls.len() - i,
    {
        let l = &ls[i];
        assert(l@ == sl[i as int]);
        if contains_str(l, "MemTotal:") || contains_str(l, "MemFree:") {
            if !kb_line_fits(l) {
                assert(!kb_line_in_range(sl[i as int]));
                assert(!node_meminfo_in_range(sl));
                return false;
            }
        }
        i = i + 1;
    }
    true
}

/// Whether a line's byte count fits in a `u64`.
fn kb_line_fits(v: &Vec<char>) -> (b: bool)
    ensures
        b == kb_line_in_range(v@),
{
    let w = words_of(v);
    assert(views(w@).len() == w@.len());
    if w.len() >= 2 {
        assert(views(w@)[w.len() - 2] == w@[w.len() - 2]@);
        match parse_u64_chars(&w[w.len() - 2]) {
            Some(kb) => kb <= u64::MAX / 1024,
            None => true,
        }
    } else {
        true
    }
}

/// Reads (total, free) bytes from /proc/meminfo's contents.
pub fn parse_global_meminfo(content: &str) -> (r: (u64, u64))
    requires
        global_meminfo_in_range(lines(content@)),
    ensures
        r.0 == global_meminfo(lines(content@)).0,
        r.1 == global_meminfo(lines(content@)).1,
{
    let v = chars_of(content);
    let ls = lines_of(&v);
    let ghost sl = lines(content@);
    let mut total: u64 = 0;
    let mut free: u64 = 0;
    let mut i: usize = 0;
    assert(sl.take(0) =~= Seq::<Seq<char>>::empty());
    proof { lemma_global_prefix(sl, 0); }
    while i < ls.len()
        invariant
            i <= ls.len(),
            views(ls@) == sl,
            global_meminfo_in_range(sl),
            total == global_meminfo(sl.take(i as int)).0,
            free == global_meminfo(sl.take(i as int)).1,
        decreases ls.len() - i,
    {
        let l = &ls[i];
        assert(l@ == sl[i as int]);
        assert(sl.take(i + 1).drop_last() =~= sl.take(i as int));
        assert(sl.take(i + 1).last() == sl[i as int]);
        proof { lemma_global_prefix(sl, i + 1); }
        if starts_with_str(l, "MemTotal:") {
            total = kb_of_line(l);
        } else if (starts_with_str(l, "MemAvailable:") || starts_with_str(l, "MemFree:")) && free == 0 {
            free = kb_of_line(l);
        }
        i = i + 1;
    }
    assert(sl.take(ls.len() as int) =~= sl);
    (total, free)
}

proof fn lemma_global_prefix(ls: Seq<Seq<char>>, k: int)
    requires
        0 <= k <= ls.len(),
        global_meminfo_in_range(ls),
    ensures
        global_meminfo_in_range(ls.take(k)),
    decreases ls.len() - k,
{
    if k < ls.len() {
        assert(ls.drop_last().take(k) =~= ls.take(k));
        lemma_global_prefix(ls.drop_last(), k);
    } else {
        assert(ls.take(k) =~= ls);
    }
}

/// Whether /proc/meminfo can be read without overflow.
pub fn global_meminfo_fits(content: &str) -> (b: bool)
    ensures
        b == global_meminfo_in_range(lines(content@)),
{
    let v = chars_of(content);
    let ls = lines_of(&v);
    let ghost sl = lines(content@);
    let mut free_seen: u64 = 0;
    let mut i: usize = 0;
    assert(sl.take(0) =~= Seq::<Seq<char>>::empty());
    while i < ls.len()
        invariant
            i <= ls.len(),
            views(ls@) == sl,
            sl == lines(content@),
            global_meminfo_in_range(sl.take(i as int)),
            free_seen == global_meminfo(sl.take(i as int)).1,
        decreases ls.len() - i,
    {
        let l = &ls[i];
        assert(l@ == sl[i as int]);
        assert(sl.take(i + 1).drop_last() =~= sl.take(i as int));
        assert(sl.take(i + 1).last() == sl[i as int]);
        if starts_with_str(l, "MemTotal:") {
            if !kb_line_fits(l) {
                assert(!global_meminfo_in_range(sl.take(i + 1)));
                proof { lemma_global_prefix_fails(sl, i + 1); }
                return false;
            }
        } else if (starts_with_str(l, "MemAvailable:") || starts_with_str(l, "MemFree:")) && free_seen == 0 {
            if !kb_line_fits(l) {
                assert(!global_meminfo_in_range(sl.take(i + 1)));
                proof { lemma_global_prefix_fails(sl, i + 1); }
                return false;
            }
            free_seen = kb_of_line(l);
        }
        i = i + 1;
    }
    assert(sl.take(ls.len() as int) =~= sl);
    true
}

proof fn lemma_global_prefix_fails(ls: Seq<Seq<char>>, k: int)
    requires
        0 <= k <= ls.len(),
        !global_meminfo_in_range(ls.take(k)),
    ensures
        !global_meminfo_in_range(ls),
{
    if global_meminfo_in_range(ls) {
        lemma_global_prefix(ls, k);
    }
}


/// The node number of a sysfs directory entry named "node<N>".
pub open spec fn node_number(name: Seq<char>) -> Option<u32> {
    if starts_with(name, "node"@) {
        spec_parse_u32(name.skip(4))
    } else {
        None
    }
}

/// Reads the node number from a directory entry name such as "node1".
pub fn numa_node_id(name: &str) -> (r: Option<u32>)
    ensures
        r == node_number(name@),
{
    let v = chars_of(name);
    proof { reveal_strlit("node"); }
    if starts_with_str(&v, "node") {
        let rest = slice_chars(&v, 4, v.len());
        assert(rest@ =~= name@.skip(4));
        parse_u32_chars(&rest)
    } else {
        None
    }
}

/// What sysfs holds for one NUMA node: its number, "cpulist" and "meminfo".
pub struct NodeReading {
    pub node_id: u32,
    pub cpulist: String,
    pub meminfo: String,
}

/// Where a node with number `k` goes among nodes sorted by number: after
/// every node whose number is at most `k`.
pub open spec fn node_insert_pos(s: Seq<NodeReading>, k: u32) -> nat
    decreases s.len(),
{
    if s.len() == 0 {
        0
    } else if s[0].node_id > k {
        0
    } else {
        1 + node_insert_pos(s.drop_first(), k)
    }
}

/// The readings in ascending node number, equal numbers in their given order.
pub open spec fn sort_nodes(rs: Seq<NodeReading>) -> Seq<NodeReading>
    decreases rs.len(),
{
    if rs.len() == 0 {
        Seq::empty()
    } else {
        let s = sort_nodes(rs.drop_last());
        s.insert(node_insert_pos(s, rs.last().node_id) as int, rs.last())
    }
}

/// The node `n` is what reading `r` describes.
pub open spec fn node_matches(n: NumaNode, r: NodeReading) -> bool {
    &&& n.node_id == r.node_id
    &&& strictly_increasing(n.cpu_ids@)
    &&& forall|c: u32| n.cpu_ids@.contains(c) <==> cpu_listed(r.cpulist@, c)
    &&& n.total_memory_bytes == node_meminfo(lines(r.meminfo@)).0
    &&& n.free_memory_bytes == node_meminfo(lines(r.meminfo@)).1
}

/// Every node's meminfo can be read without overflow.
pub open spec fn nodes_in_range(rs: Seq<NodeReading>) -> bool {
    forall|i: int| 0 <= i < rs.len() ==> node_meminfo_in_range(lines((#[trigger] rs[i]).meminfo@))
}

pub open spec fn node_refs(s: Seq<&NodeReading>) -> Seq<NodeReading> {
    s.map_values(|r: &NodeReading| *r)
}

fn sorted_node_refs<'a>(rs: &'a Vec<NodeReading>) -> (r: Vec<&'a NodeReading>)
    ensures
        node_refs(r@) == sort_nodes(rs@),
{
    let mut r: Vec<&'a NodeReading> = Vec::new();
    let mut i: usize = 0;
    assert(rs@.take(0) =~= Seq::<NodeReading>::empty());
    assert(node_refs(r@) =~= sort_nodes(rs@.take(0)));
    while i < rs.len()
        invariant
            i <= rs.len(),
            node_refs(r@) == sort_nodes(rs@.take(i as int)),
        decreases rs.len() - i,
    {
        let x = &rs[i];
        let k = x.node_id;
        let ghost s = node_refs(r@);
        let mut p: usize = 0;
        assert(s.skip(0) =~= s);
        while p < r.len() && r[p].node_id <= k
            invariant
                p <= r.len(),
                s == node_refs(r@),
                node_insert_pos(s, k) == p + node_insert_pos(s.skip(p as int), k),
            decreases r.len() - p,
        {
            assert(s.skip(p as int).drop_first() =~= s.skip(p + 1));
            p = p + 1;
        }
        proof {
            if p < r.len() {
                assert(s.skip(p as int)[0] == s[p as int]);
            }
        }
        r.insert(p, x);
        assert(rs@.take(i + 1).drop_last() =~= rs@.take(i as int));
        assert(rs@.take(i + 1).last() == rs@[i as int]);
        assert(node_refs(r@) =~= s.insert(p as int, *x));
        i = i + 1;
    }
    assert(rs@.take(rs.len() as int) =~= rs@);
    r
}

proof fn lemma_sort_nodes_len(rs: Seq<NodeReading>)
    ensures
        sort_nodes(rs).len() == rs.len(),
        nodes_in_range(rs) ==> nodes_in_range(sort_nodes(rs)),
    decreases rs.len(),
{
    if rs.len() > 0 {
        let s = sort_nodes(rs.drop_last());
        lemma_sort_nodes_len(rs.drop_last());
        lemma_node_insert_pos(s, rs.last().node_id);
        let pos = node_insert_pos(s, rs.last().node_id) as int;
        let t = s.insert(pos, rs.last());
        if nodes_in_range(rs) {
            assert(nodes_in_range(rs.drop_last())) by {
                assert forall|i: int| 0 <= i < rs.drop_last().len() implies node_meminfo_in_range(lines((#[trigger] rs.drop_last()[i]).meminfo@)) by {
                    assert(rs.drop_last()[i] == rs[i]);
                }
            }
            assert forall|i: int| 0 <= i < t.len() implies node_meminfo_in_range(lines((#[trigger] t[i]).meminfo@)) by {
                if i < pos {
                    assert(t[i] == s[i]);
                } else if i == pos {
                    assert(t[i] == rs[rs.len() - 1]);
                } else {
                    assert(t[i] == s[i - 1]);
                }
            }
        }
    }
}

proof fn lemma_node_insert_pos(s: Seq<NodeReading>, k: u32)
    ensures
        node_insert_pos(s, k) <= s.len(),
    decreases s.len(),
{
    if s.len() > 0 && s[0].node_id <= k {
        lemma_node_insert_pos(s.drop_first(), k);
    }
}

/// The node a reading describes.
fn node_of(r: &NodeReading) -> (n: NumaNode)
    requires
        node_meminfo_in_range(lines(r.meminfo@)),
    ensures
        node_matches(n, *r),
{
    let cpu_ids = parse_cpu_list(r.cpulist.as_str());
    let (total, free) = parse_node_meminfo(r.meminfo.as_str());
    NumaNode { node_id: r.node_id, cpu_ids, total_memory_bytes: total, free_memory_bytes: free }
}

/// The NUMA nodes of the host in ascending node number; when sysfs lists
/// none, a single node 0 without CPUs that holds the memory /proc/meminfo reports.
pub fn assemble_numa(nodes: &Vec<NodeReading>, global: &str) -> (r: Vec<NumaNode>)
    requires
        nodes_in_range(nodes@),
        nodes@.len() == 0 ==> global_meminfo_in_range(lines(global@)),
    ensures
        nodes@.len() > 0 ==> r@.len() == nodes@.len()
            && forall|i: int| 0 <= i < r@.len() ==> node_matches(#[trigger] r@[i], sort_nodes(nodes@)[i]),
        nodes@.len() == 0 ==> r@.len() == 1
            && r@[0].node_id == 0
            && r@[0].cpu_ids@.len() == 0
            && r@[0].total_memory_bytes == global_meminfo(lines(global@)).0
            && r@[0].free_memory_bytes == global_meminfo(lines(global@)).1,
{
    let mut out: Vec<NumaNode> = Vec::new();
    if nodes.len() == 0 {
        let (total, free) = parse_global_meminfo(global);
        out.push(NumaNode { node_id: 0, cpu_ids: Vec::new(), total_memory_bytes: total, free_memory_bytes: free });
        return out;
    }
    let order = sorted_node_refs(nodes);
    proof { lemma_sort_nodes_len(nodes@); }
    let mut i: usize = 0;
    while i < order.len()
        invariant
            i <= order.len(),
            order@.len() == nodes@.len(),
            node_refs(order@) == sort_nodes(nodes@),
            nodes_in_range(nodes@),
            nodes_in_range(sort_nodes(nodes@)),
            out@.len() == i,
            forall|q: int| 0 <= q < i ==> node_matches(#[trigger] out@[q], sort_nodes(nodes@)[q]),
        decreases order.len() - i,
    {
        let x: &NodeReading = order[i];
        assert(node_refs(order@)[i as int] == *x);
        assert(sort_nodes(nodes@)[i as int] == *x);
        out.push(node_of(x));
        i = i + 1;
    }
    out
}


/// The page size in KiB of a sysfs directory entry named "hugepages-<N>kB".
pub open spec fn hugepage_dir_size(name: Seq<char>) -> Option<u64> {
    if starts_with(name, "hugepages-"@) && name.len() >= 12 && name.skip(name.len() - 2) == "kB"@ {
        spec_parse_u64(name.subrange(10, name.len() - 2))
    } else {
        None
    }
}

/// Reads the page size from a directory entry name such as "hugepages-2048kB".
pub fn hugepage_size_kb(name: &str) -> (r: Option<u64>)
    ensures
        r == hugepage_dir_size(name@),
{
    let v = chars_of(name);
    proof { reveal_strlit("hugepages-"); reveal_strlit("kB"); }
    let n = v.len();
    if starts_with_str(&v, "hugepages-") && n >= 12 && v[n - 2] == 'k' && v[n - 1] == 'B' {
        assert(v@.skip(n - 2) =~= "kB"@);
        let body = slice_chars(&v, 10, n - 2);
        parse_u64_chars(&body)
    } else {
        proof {
            if starts_with(name@, "hugepages-"@) && name@.len() >= 12 && name@.skip(name@.len() - 2) == "kB"@ {
                assert(name@.skip(name@.len() - 2)[0] == name@[n - 2]);
                assert(name@.skip(name@.len() - 2)[1] == name@[n - 1]);
            }
        }
        None
    }
}

/// What sysfs holds for one hugepage size: the size and the raw
/// "nr_hugepages" and "free_hugepages" contents, where they could be read.
pub struct HugepageReading {
    pub page_size_kb: u64,
    pub nr_hugepages: Option<String>,
    pub free_hugepages: Option<String>,
}

/// Where a tier of size `k` goes among tiers sorted by descending size:
/// after every tier at least as large.
pub open spec fn tier_insert_pos(s: Seq<HugepageReading>, k: u64) -> nat
    decreases s.len(),
{
    if s.len() == 0 {
        0
    } else if s[0].page_size_kb < k {
        0
    } else {
        1 + tier_insert_pos(s.drop_first(), k)
    }
}

/// The readings by descending page size, equal sizes in their given order.
pub open spec fn sort_tiers(rs: Seq<HugepageReading>) -> Seq<HugepageReading>
    decreases rs.len(),
{
    if rs.len() == 0 {
        Seq::empty()
    } else {
        let s = sort_tiers(rs.drop_last());
        s.insert(tier_insert_pos(s, rs.last().page_size_kb) as int, rs.last())
    }
}

/// The tier `t` is what reading `r` describes; the mount point is
/// "/dev/hugepages" when that directory exists.
pub open spec fn tier_matches(t: HugepageTier, r: HugepageReading, mounted: bool) -> bool {
    &&& t.page_size_kb == r.page_size_kb
    &&& t.total_pages == (match attr_u64(r.nr_hugepages) { Some(v) => v, None => 0 })
    &&& t.free_pages == (match attr_u64(r.free_hugepages) { Some(v) => v, None => 0 })
    &&& match t.mount_point {
        Some(m) => mounted && m@ == "/dev/hugepages"@,
        None => !mounted,
    }
}

pub open spec fn tier_refs(s: Seq<&HugepageReading>) -> Seq<HugepageReading> {
    s.map_values(|r: &HugepageReading| *r)
}

fn sorted_tier_refs<'a>(rs: &'a Vec<HugepageReading>) -> (r: Vec<&'a HugepageReading>)
    ensures
        tier_refs(r@) == sort_tiers(rs@),
{
    let mut r: Vec<&'a HugepageReading> = Vec::new();
    let mut i: usize = 0;
    assert(rs@.take(0) =~= Seq::<HugepageReading>::empty());
    assert(tier_refs(r@) =~= sort_tiers(rs@.take(0)));
    while i < rs.len()
        invariant
            i <= rs.len(),
            tier_refs(r@) == sort_tiers(rs@.take(i as int)),
        decreases rs.len() - i,
    {
        let x = &rs[i];
        let k = x.page_size_kb;
        let ghost s = tier_refs(r@);
        let mut p: usize = 0;
        assert(s.skip(0) =~= s);
        while p < r.len() && r[p].page_size_kb >= k
            invariant
                p <= r.len(),
                s == tier_refs(r@),
                tier_insert_pos(s, k) == p + tier_insert_pos(s.skip(p as int), k),
            decreases r.len() - p,
        {
            assert(s.skip(p as int).drop_first() =~= s.skip(p + 1));
            p = p + 1;
        }
        proof {
            if p < r.len() {
                assert(s.skip(p as int)[0] == s[p as int]);
            }
        }
        r.insert(p, x);
        assert(rs@.take(i + 1).drop_last() =~= rs@.take(i as int));
        assert(rs@.take(i + 1).last() == rs@[i as int]);
        assert(tier_refs(r@) =~= s.insert(p as int, *x));
        i = i + 1;
    }
    assert(rs@.take(rs.len() as int) =~= rs@);
    r
}

proof fn lemma_sort_tiers_len(rs: Seq<HugepageReading>)
    ensures
        sort_tiers(rs).len() == rs.len(),
    decreases rs.len(),
{
    if rs.len() > 0 {
        lemma_sort_tiers_len(rs.drop_last());
        lemma_tier_insert_pos(sort_tiers(rs.drop_last()), rs.last().page_size_kb);
    }
}

proof fn lemma_tier_insert_pos(s: Seq<HugepageReading>, k: u64)
    ensures
        tier_insert_pos(s, k) <= s.len(),
    decreases s.len(),
{
    if s.len() > 0 && s[0].page_size_kb >= k {
        lemma_tier_insert_pos(s.drop_first(), k);
    }
}

/// The hugepage tiers of the host, largest pages first.
pub fn assemble_hugepages(entries: &Vec<HugepageReading>, mounted: bool) -> (r: Vec<HugepageTier>)
    ensures
        r@.len() == entries@.len(),
        forall|i: int| 0 <= i < r@.len() ==> tier_matches(#[trigger] r@[i], sort_tiers(entries@)[i], mounted),
{
    let order = sorted_tier_refs(entries);
    proof { lemma_sort_tiers_len(entries@); }
    let mut out: Vec<HugepageTier> = Vec::new();
    let mut i: usize = 0;
    while i < order.len()
        invariant
            i <= order.len(),
            order@.len() == entries@.len(),
            tier_refs(order@) == sort_tiers(entries@),
            out@.len() == i,
            forall|q: int| 0 <= q < i ==> tier_matches(#[trigger] out@[q], sort_tiers(entries@)[q], mounted),
        decreases order.len() - i,
    {
        let x: &HugepageReading = order[i];
        assert(tier_refs(order@)[i as int] == *x);
        let total = match read_attr_u64(&x.nr_hugepages) { Some(v) => v, None => 0 };
        let free = match read_attr_u64(&x.free_hugepages) { Some(v) => v, None => 0 };
        let mount_point = if mounted { Some(string_from("/dev/hugepages")) } else { None };
        out.push(HugepageTier { page_size_kb: x.page_size_kb, total_pages: total, free_pages: free, mount_point });
        i = i + 1;
    }
    out
}


proof fn lemma_node_insert_pos_bounds(s: Seq<NodeReading>, k: u32)
    ensures
        node_insert_pos(s, k) <= s.len(),
        forall|q: int| 0 <= q < node_insert_pos(s, k) ==> (#[trigger] s[q]).node_id <= k,
        node_insert_pos(s, k) < s.len() ==> s[node_insert_pos(s, k) as int].node_id > k,
    decreases s.len(),
{
    if s.len() > 0 && s[0].node_id <= k {
        lemma_node_insert_pos_bounds(s.drop_first(), k);
        assert forall|q: int| 0 <= q < node_insert_pos(s, k) implies (#[trigger] s[q]).node_id <= k by {
            if q > 0 {
                assert(s[q] == s.drop_first()[q - 1]);
            }
        }
    }
}

/// The NUMA nodes come out in ascending node number, each reading exactly once.
pub proof fn law_numa_nodes_ascending(rs: Seq<NodeReading>)
    ensures
        sort_nodes(rs).len() == rs.len(),
        forall|i: int, j: int| 0 <= i < j < rs.len() ==> sort_nodes(rs)[i].node_id <= sort_nodes(rs)[j].node_id,
        sort_nodes(rs).to_multiset() == rs.to_multiset(),
    decreases rs.len(),
{
    broadcast use vstd::seq_lib::group_to_multiset_ensures;
    if rs.len() > 0 {
        let s = sort_nodes(rs.drop_last());
        law_numa_nodes_ascending(rs.drop_last());
        let x = rs.last();
        let k = x.node_id;
        let pos = node_insert_pos(s, k);
        lemma_node_insert_pos_bounds(s, k);
        s.insert_ensures(pos as int, x);
        let t = s.insert(pos as int, x);
        assert forall|i: int, j: int| 0 <= i < j < t.len() implies t[i].node_id <= t[j].node_id by {
            if j < pos {
            } else if j == pos {
                assert(t[i] == s[i]);
            } else if i < pos {
                assert(t[j] == s[j - 1]);
                assert(t[i] == s[i]);
                if pos < s.len() && j - 1 > pos {
                    assert(s[pos as int].node_id <= s[j - 1].node_id);
                }
            } else if i == pos {
                assert(t[j] == s[j - 1]);
                if j - 1 > pos {
                    assert(s[pos as int].node_id <= s[j - 1].node_id);
                }
            } else {
                assert(t[j] == s[j - 1]);
                assert(t[i] == s[i - 1]);
            }
        }
        assert(t =~= s.subrange(0, pos as int).push(x) + s.subrange(pos as int, s.len() as int));
        assert(s =~= s.subrange(0, pos as int) + s.subrange(pos as int, s.len() as int));
        vstd::seq_lib::lemma_multiset_commutative(s.subrange(0, pos as int).push(x), s.subrange(pos as int, s.len() as int));
        vstd::seq_lib::lemma_multiset_commutative(s.subrange(0, pos as int), s.subrange(pos as int, s.len() as int));
        assert(rs =~= rs.drop_last().push(x));
    }
}

proof fn lemma_tier_insert_pos_bounds(s: Seq<HugepageReading>, k: u64)
    ensures
        tier_insert_pos(s, k) <= s.len(),
        forall|q: int| 0 <= q < tier_insert_pos(s, k) ==> (#[trigger] s[q]).page_size_kb >= k,
        tier_insert_pos(s, k) < s.len() ==> s[tier_insert_pos(s, k) as int].page_size_kb < k,
    decreases s.len(),
{
    if s.len() > 0 && s[0].page_size_kb >= k {
        lemma_tier_insert_pos_bounds(s.drop_first(), k);
        assert forall|q: int| 0 <= q < tier_insert_pos(s, k) implies (#[trigger] s[q]).page_size_kb >= k by {
            if q > 0 {
                assert(s[q] == s.drop_first()[q - 1]);
            }
        }
    }
}

/// The hugepage tiers come out largest page size first, each reading exactly once.
pub proof fn law_hugepage_tiers_descending(rs: Seq<HugepageReading>)
    ensures
        sort_tiers(rs).len() == rs.len(),
        forall|i: int, j: int| 0 <= i < j < rs.len() ==> sort_tiers(rs)[i].page_size_kb >= sort_tiers(rs)[j].page_size_kb,
        sort_tiers(rs).to_multiset() == rs.to_multiset(),
    decreases rs.len(),
{
    broadcast use vstd::seq_lib::group_to_multiset_ensures;
    if rs.len() > 0 {
        let s = sort_tiers(rs.drop_last());
        law_hugepage_tiers_descending(rs.drop_last());
        let x = rs.last();
        let k = x.page_size_kb;
        let pos = tier_insert_pos(s, k);
        lemma_tier_insert_pos_bounds(s, k);
        s.insert_ensures(pos as int, x);
        let t = s.insert(pos as int, x);
        assert forall|i: int, j: int| 0 <= i < j < t.len() implies t[i].page_size_kb >= t[j].page_size_kb by {
            if j < pos {
            } else if j == pos {
                assert(t[i] == s[i]);
            } else if i < pos {
                assert(t[j] == s[j - 1]);
                assert(t[i] == s[i]);
                if pos < s.len() && j - 1 > pos {
                    assert(s[pos as int].page_size_kb >= s[j - 1].page_size_kb);
                }
            } else if i == pos {
                assert(t[j] == s[j - 1]);
                if j - 1 > pos {
                    assert(s[pos as int].page_size_kb >= s[j - 1].page_size_kb);
                }
            } else {
                assert(t[j] == s[j - 1]);
                assert(t[i] == s[i - 1]);
            }
        }
        assert(t =~= s.subrange(0, pos as int).push(x) + s.subrange(pos as int, s.len() as int));
        assert(s =~= s.subrange(0, pos as int) + s.subrange(pos as int, s.len() as int));
        vstd::seq_lib::lemma_multiset_commutative(s.subrange(0, pos as int).push(x), s.subrange(pos as int, s.len() as int));
        vstd::seq_lib::lemma_multiset_commutative(s.subrange(0, pos as int), s.subrange(pos as int, s.len() as int));
        assert(rs =~= rs.drop_last().push(x));
    }
}

} // verus!
