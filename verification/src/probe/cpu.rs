//! CPU hardware topology, cache domains (L3/CCD), SMT thread pairing, and hybrid core parser.

use crate::synthesis::libvirt_xml::join_dec;
use crate::text::{
    all_digits, chars_of, contains_char, dec, digit_char, digit_value, digits_value, is_digit, is_ws,
    parse_u32_chars, spec_parse_u32, split_chars, split_on, trim, trim_chars, trim_end, trim_start,
    views,
};
use vstd::prelude::*;

verus! {

/// Ascending without repetition.
pub open spec fn strictly_increasing(s: Seq<u32>) -> bool {
    forall|i: int, j: int| 0 <= i < j < s.len() ==> s[i] < s[j]
}

/// Whether the (trimmed) list item `q` names CPU `c`: a single number, or an
/// inclusive range "lo-hi" of two numbers.
pub open spec fn item_names(q: Seq<char>, c: u32) -> bool {
    &&& q.len() > 0
    &&& if q.contains('-') {
        let b = split_on(q, '-');
        &&& b.len() == 2
        &&& match (spec_parse_u32(b[0]), spec_parse_u32(b[1])) {
            (Some(lo), Some(hi)) => lo <= c <= hi,
            _ => false,
        }
    } else {
        spec_parse_u32(q) == Some(c)
    }
}

/// Whether a CPU list such as "0-7,16-23" names CPU `c`; malformed items name nothing.
pub open spec fn cpu_listed(s: Seq<char>, c: u32) -> bool {
    let items = split_on(trim(s), ',');
    exists|i: int| 0 <= i < items.len() && item_names(trim(items[i]), c)
}

/// Adds `x` to a strictly increasing vector, keeping it so.
pub(crate) fn insert_sorted(v: &mut Vec<u32>, x: u32)
    requires
        strictly_increasing(old(v)@),
    ensures
        strictly_increasing(final(v)@),
        forall|c: u32| final(v)@.contains(c) <==> (old(v)@.contains(c) || c == x),
{
    if v.len() == 0 || v[v.len() - 1] < x {
        v.push(x);
        assert forall|c: u32| v@.contains(c) <==> (old(v)@.contains(c) || c == x) by {
            if v@.contains(c) && c != x {
                let q = choose|q: int| 0 <= q < v@.len() && v@[q] == c;
                assert(old(v)@[q] == c);
            }
            if old(v)@.contains(c) {
                let q = choose|q: int| 0 <= q < old(v)@.len() && old(v)@[q] == c;
                assert(v@[q] == c);
            }
            if c == x {
                assert(v@[v@.len() - 1] == x);
            }
        }
        return;
    }
    let mut p: usize = 0;
    while p < v.len() && v[p] < x
        invariant
            p <= v.len(),
            v@ == old(v)@,
            strictly_increasing(v@),
            forall|q: int| 0 <= q < p ==> v@[q] < x,
        decreases v.len() - p,
    {
        p = p + 1;
    }
    if p < v.len() && v[p] == x {
        return;
    }
    let ghost s = v@;
    v.insert(p, x);
    proof {
        s.insert_ensures(p as int, x);
        assert forall|i: int, j: int| 0 <= i < j < v@.len() implies v@[i] < v@[j] by {
            if j < p {
            } else if j == p {
                assert(v@[i] == s[i]);
            } else if i < p {
                assert(v@[j] == s[j - 1]);
                assert(v@[i] == s[i]);
                assert(s[p as int] > x);
                assert(s[i] < s[p as int]);
            } else if i == p {
                assert(v@[j] == s[j - 1]);
                assert(s[p as int] > x);
                if j - 1 > p {
                    assert(s[p as int] < s[j - 1]);
                }
            } else {
                assert(v@[j] == s[j - 1]);
                assert(v@[i] == s[i - 1]);
            }
        }
        assert forall|c: u32| v@.contains(c) <==> (s.contains(c) || c == x) by {
            if v@.contains(c) && c != x {
                let q = choose|q: int| 0 <= q < v@.len() && v@[q] == c;
                if q < p {
                    assert(s[q] == c);
                } else {
                    assert(q != p);
                    assert(s[q - 1] == c);
                }
            }
            if s.contains(c) {
                let q = choose|q: int| 0 <= q < s.len() && s[q] == c;
                if q < p {
                    assert(v@[q] == c);
                } else {
                    assert(v@[q + 1] == c);
                }
            }
            if c == x {
                assert(v@[p as int] == x);
            }
        }
    }
}

/// The inclusive range of CPUs a trimmed list item names, if it is well formed.
fn item_range(q: &Vec<char>) -> (r: Option<(u32, u32)>)
    ensures
        forall|c: u32| item_names(q@, c) <==> (r matches Some(b) && b.0 <= c <= b.1),
{
    if q.len() == 0 {
        return None;
    }
    if contains_char(q, '-') {
        let b = split_chars(q, '-');
        assert(views(b@).len() == b@.len());
        if b.len() == 2 {
            assert(views(b@)[0] == b@[0]@);
            assert(views(b@)[1] == b@[1]@);
            match (parse_u32_chars(&b[0]), parse_u32_chars(&b[1])) {
                (Some(lo), Some(hi)) => Some((lo, hi)),
                _ => None,
            }
        } else {
            None
        }
    } else {
        match parse_u32_chars(q) {
            Some(n) => Some((n, n)),
            None => None,
        }
    }
}

/// Parses CPU range lists like "0-7,16-23" or "0,2,4,6" into an ascending
/// list of distinct CPU numbers; malformed items are skipped.
pub fn parse_cpu_list(list_str: &str) -> (cpus: Vec<u32>)
    ensures
        strictly_increasing(cpus@),
        forall|c: u32| cpus@.contains(c) <==> cpu_listed(list_str@, c),
{
    let chars = chars_of(list_str);
    let t = trim_chars(&chars);
    let items = split_chars(&t, ',');
    let ghost spec_items = split_on(trim(list_str@), ',');
    assert(views(items@) == spec_items);
    let mut cpus: Vec<u32> = Vec::new();
    let mut i: usize = 0;
    while i < items.len()
        invariant
            i <= items.len(),
            views(items@) == spec_items,
            spec_items == split_on(trim(list_str@), ','),
            strictly_increasing(cpus@),
            forall|c: u32| cpus@.contains(c) <==>
                exists|j: int| 0 <= j < i && item_names(trim(spec_items[j]), c),
        decreases items.len() - i,
    {
        let ghost before = cpus@;
        let q = trim_chars(&items[i]);
        assert(items@[i as int]@ == spec_items[i as int]);
        let r = item_range(&q);
        match r {
            Some((lo, hi)) => {
                if lo <= hi {
                    let mut x: u64 = lo as u64;
                    while x <= hi as u64
                        invariant
                            lo <= x <= hi as u64 + 1,
                            strictly_increasing(cpus@),
                            forall|c: u32| #[trigger] cpus@.contains(c) <==> (before.contains(c) || (lo <= c && (c as u64) < x)),
                        decreases hi as u64 + 1 - x,
                    {
                        insert_sorted(&mut cpus, x as u32);
                        x = x + 1;
                    }
                    assert(x == hi as u64 + 1);
                    assert(forall|c: u32| cpus@.contains(c) <==> (before.contains(c) || (lo <= c && c <= hi)));
                } else {
                    assert(cpus@ == before);
                }
                assert(forall|c: u32| cpus@.contains(c) <==> (before.contains(c) || (lo <= c && c <= hi)));
                assert forall|c: u32| cpus@.contains(c) <==> (before.contains(c) || item_names(q@, c)) by {
                    assert(item_names(q@, c) <==> (lo <= c && c <= hi));
                }
            },
            None => {
                assert forall|c: u32| cpus@.contains(c) <==> (before.contains(c) || item_names(q@, c)) by {
                    assert(!item_names(q@, c));
                }
            },
        }
        assert(q@ == trim(spec_items[i as int]));
        assert forall|c: u32| cpus@.contains(c) <==>
            exists|j: int| 0 <= j < i + 1 && item_names(trim(spec_items[j]), c) by {
            if cpus@.contains(c) && !before.contains(c) {
                assert(item_names(trim(spec_items[i as int]), c));
            }
            if exists|j: int| 0 <= j < i + 1 && item_names(trim(spec_items[j]), c) {
                let j = choose|j: int| 0 <= j < i + 1 && item_names(trim(spec_items[j]), c);
                if j < i {
                    assert(before.contains(c));
                }
            }
        }
        i = i + 1;
    }
    cpus
}


proof fn lemma_digit_char(k: nat)
    requires
        k < 10,
    ensures
        is_digit(digit_char(k)),
        digit_value(digit_char(k)) == k,
{
}

/// The decimal rendering of `n` is a nonempty string of digits worth `n`.
proof fn lemma_dec(n: nat)
    ensures
        dec(n).len() > 0,
        all_digits(dec(n)),
        digits_value(dec(n)) == n,
    decreases n,
{
    lemma_digit_char(n % 10);
    if n < 10 {
        assert(dec(n).drop_last() =~= Seq::<char>::empty());
        assert(dec(n).last() == digit_char(n));
        assert(digits_value(dec(n)) == digits_value(dec(n).drop_last()) * 10 + digit_value(dec(n).last()));
    } else {
        lemma_dec(n / 10);
        let s = dec(n / 10);
        assert(dec(n).drop_last() =~= s);
        assert(dec(n).last() == digit_char(n % 10));
        assert(digits_value(dec(n)) == digits_value(s) * 10 + digit_value(digit_char(n % 10)));
        assert((n / 10) * 10 + n % 10 == n) by (nonlinear_arith);
        assert forall|i: int| 0 <= i < dec(n).len() implies is_digit(#[trigger] dec(n)[i]) by {
            if i < s.len() {
                assert(dec(n)[i] == s[i]);
            }
        }
    }
}

/// Parsing the decimal rendering of a CPU number gives it back.
proof fn lemma_parse_dec(n: u32)
    ensures
        spec_parse_u32(dec(n as nat)) == Some(n),
        !dec(n as nat).contains('-'),
        !dec(n as nat).contains(','),
        forall|i: int| 0 <= i < dec(n as nat).len() ==> !is_ws(#[trigger] dec(n as nat)[i]),
{
    lemma_dec(n as nat);
    let d = dec(n as nat);
    assert(is_digit(d[0]));
    assert forall|i: int| 0 <= i < d.len() implies !is_ws(#[trigger] d[i]) && d[i] != '-' && d[i] != ',' by {
        assert(is_digit(d[i]));
    }
}

/// Without white space, trimming changes nothing.
proof fn lemma_trim_no_ws(s: Seq<char>)
    requires
        forall|i: int| 0 <= i < s.len() ==> !is_ws(#[trigger] s[i]),
    ensures
        trim(s) == s,
{
    if s.len() > 0 {
        assert(!is_ws(s[0]));
        assert(!is_ws(s[s.len() - 1]));
    }
}

/// A string without `sep` is a single piece.
proof fn lemma_split_single(t: Seq<char>, sep: char)
    requires
        !t.contains(sep),
    ensures
        split_on(t, sep) == seq![t],
    decreases t.len(),
{
    if t.len() > 0 {
        let t2 = t.drop_last();
        assert forall|i: int| 0 <= i < t2.len() implies t2[i] != sep by {
            assert(t2[i] == t[i]);
        }
        lemma_split_single(t2, sep);
        assert(t.last() != sep) by {
            assert(t[t.len() - 1] == t.last());
        }
        assert(t2.push(t.last()) =~= t);
        assert(seq![t2].update(0, t2.push(t.last())) =~= seq![t]);
        assert(split_on(t, sep) == seq![t2].update(0, t2.push(t.last())));
    } else {
        assert(t =~= Seq::<char>::empty());
    }
}

/// Appending `sep` and a piece without `sep` appends that piece.
proof fn lemma_split_append(s: Seq<char>, t: Seq<char>, sep: char)
    requires
        !t.contains(sep),
    ensures
        split_on(s.push(sep) + t, sep) == split_on(s, sep).push(t),
    decreases t.len(),
{
    if t.len() == 0 {
        assert(s.push(sep) + t =~= s.push(sep));
        assert(s.push(sep).drop_last() =~= s);
        assert(s.push(sep).last() == sep);
        assert(t =~= Seq::<char>::empty());
        assert(split_on(s.push(sep), sep) == split_on(s, sep).push(Seq::<char>::empty()));
    } else {
        let t2 = t.drop_last();
        assert forall|i: int| 0 <= i < t2.len() implies t2[i] != sep by {
            assert(t2[i] == t[i]);
        }
        lemma_split_append(s, t2, sep);
        let x = s.push(sep) + t;
        assert(x.drop_last() =~= s.push(sep) + t2);
        assert(x.last() == t.last());
        assert(t.last() != sep) by {
            assert(t[t.len() - 1] == t.last());
        }
        let p = split_on(s, sep).push(t2);
        assert(split_on(x.drop_last(), sep) == p);
        assert(split_on(x, sep) == p.update(p.len() - 1, p.last().push(x.last())));
        assert(t2.push(t.last()) =~= t);
        assert(p.update(p.len() - 1, p.last().push(t.last())) =~= split_on(s, sep).push(t));
    }
}

/// The comma-separated rendering of a CPU list splits back into the renderings.
proof fn lemma_split_join_dec(r: Seq<u32>)
    requires
        r.len() > 0,
    ensures
        split_on(join_dec(r), ',') == r.map_values(|c: u32| dec(c as nat)),
        forall|i: int| 0 <= i < join_dec(r).len() ==> !is_ws(#[trigger] join_dec(r)[i]),
    decreases r.len(),
{
    lemma_parse_dec(r.last());
    if r.len() == 1 {
        lemma_parse_dec(r[0]);
        lemma_split_single(dec(r[0] as nat), ',');
        assert(r.map_values(|c: u32| dec(c as nat)) =~= seq![dec(r[0] as nat)]);
    } else {
        let r2 = r.drop_last();
        lemma_split_join_dec(r2);
        lemma_split_append(join_dec(r2), dec(r.last() as nat), ',');
        assert(r.map_values(|c: u32| dec(c as nat)) =~= r2.map_values(|c: u32| dec(c as nat)).push(dec(r.last() as nat)));
        let j = join_dec(r);
        let j2 = join_dec(r2);
        let d = dec(r.last() as nat);
        assert(j == j2.push(',') + d);
        assert forall|i: int| 0 <= i < j.len() implies !is_ws(#[trigger] j[i]) by {
            if i < j2.len() {
                assert(j[i] == j2[i]);
            } else if i == j2.len() {
                assert(j[i] == ',');
            } else {
                assert(j[i] == d[i - j2.len() - 1]);
            }
        }
    }
}

/// The rendered list names exactly its own CPUs.
proof fn lemma_listed_join_dec(r: Seq<u32>, c: u32)
    ensures
        cpu_listed(join_dec(r), c) <==> r.contains(c),
{
    if r.len() == 0 {
        assert(join_dec(r) =~= Seq::<char>::empty());
        lemma_trim_no_ws(join_dec(r));
        assert(split_on(Seq::<char>::empty(), ',') == seq![Seq::<char>::empty()]);
        assert(trim(Seq::<char>::empty()) =~= Seq::<char>::empty()) by {
            lemma_trim_no_ws(Seq::<char>::empty());
        }
    } else {
        lemma_split_join_dec(r);
        lemma_trim_no_ws(join_dec(r));
        let items = split_on(trim(join_dec(r)), ',');
        assert(items == r.map_values(|x: u32| dec(x as nat)));
        assert forall|i: int| 0 <= i < items.len() implies (item_names(trim(#[trigger] items[i]), c) <==> r[i] == c) by {
            lemma_parse_dec(r[i]);
            assert(items[i] == dec(r[i] as nat));
            lemma_trim_no_ws(items[i]);
        }
        if r.contains(c) {
            let i = choose|i: int| 0 <= i < r.len() && r[i] == c;
            assert(item_names(trim(items[i]), c));
        }
    }
}

/// Two ascending lists of distinct CPUs with the same members are the same list.
proof fn lemma_sorted_same_members(v: Seq<u32>, r: Seq<u32>)
    requires
        strictly_increasing(v),
        strictly_increasing(r),
        forall|c: u32| v.contains(c) <==> r.contains(c),
    ensures
        v == r,
    decreases v.len() + r.len(),
{
    if v.len() == 0 || r.len() == 0 {
        if v.len() > 0 {
            assert(v.contains(v[0]));
        }
        if r.len() > 0 {
            assert(r.contains(r[0]));
        }
        assert(v =~= r);
    } else {
        assert(v.contains(v[0]) && r.contains(r[0]));
        let a = choose|i: int| 0 <= i < r.len() && r[i] == v[0];
        let b = choose|i: int| 0 <= i < v.len() && v[i] == r[0];
        if a > 0 {
            assert(r[0] < r[a]);
        }
        if b > 0 {
            assert(v[0] < v[b]);
        }
        assert(v[0] == r[0]);
        let v2 = v.drop_first();
        let r2 = r.drop_first();
        assert forall|c: u32| v2.contains(c) <==> r2.contains(c) by {
            if v2.contains(c) {
                let i = choose|i: int| 0 <= i < v2.len() && v2[i] == c;
                assert(v[i + 1] == c && v[0] < v[i + 1]);
                assert(v.contains(c));
                let k = choose|k: int| 0 <= k < r.len() && r[k] == c;
                assert(k != 0);
                assert(r2[k - 1] == c);
            }
            if r2.contains(c) {
                let i = choose|i: int| 0 <= i < r2.len() && r2[i] == c;
                assert(r[i + 1] == c && r[0] < r[i + 1]);
                assert(r.contains(c));
                let k = choose|k: int| 0 <= k < v.len() && v[k] == c;
                assert(k != 0);
                assert(v2[k - 1] == c);
            }
        }
        lemma_sorted_same_members(v2, r2);
        assert(v =~= seq![v[0]] + v2);
        assert(r =~= seq![r[0]] + r2);
    }
}

/// Rendering an ascending list of distinct CPUs as comma-separated decimals
/// and parsing it back gives the same list: any ascending list of distinct
/// CPUs naming exactly what the rendering names (as `parse_cpu_list`'s result
/// does) is that list.
pub proof fn law_cpu_list_round_trip(r: Seq<u32>, v: Seq<u32>)
    requires
        strictly_increasing(r),
        strictly_increasing(v),
        forall|c: u32| v.contains(c) <==> cpu_listed(join_dec(r), c),
    ensures
        v == r,
{
    assert forall|c: u32| v.contains(c) <==> r.contains(c) by {
        lemma_listed_join_dec(r, c);
    }
    lemma_sorted_same_members(v, r);
}

} // verus!
