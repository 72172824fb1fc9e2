//! The profile data model: an address entry, an optional MAC override, and a
//! named bundle of addressing and DNS settings to apply to one adapter.

use vstd::prelude::*;

use crate::dns::DNS;

verus! {

/// One static address entry: an IPv4 address literal and a subnet in either
/// dotted-decimal or CIDR notation. Validity is advisory: it is checked for
/// feedback, not enforced at construction.
#[derive(Debug, Clone, PartialEq, Eq, Hash)]
pub struct IP {
    pub address: String,
    pub subnet: String,
}

impl Default for IP {
    fn default() -> (r: Self)
        ensures
            r.address@ == Seq::<char>::empty(),
            r.subnet@ == Seq::<char>::empty(),
    {
        IP { address: String::new(), subnet: String::new() }
    }
}

/// An optional MAC address override. It is advisory and takes no part in the
/// apply pipeline.
#[derive(Debug, Clone, PartialEq, Eq, Hash)]
pub struct MAC {
    pub address: String,
}

impl Default for MAC {
    fn default() -> (r: Self)
        ensures
            r.address@ == Seq::<char>::empty(),
    {
        MAC { address: String::new() }
    }
}

/// A named network profile. `ips` is ordered: the first entry is the primary
/// address and is applied with a replacing operation, later entries with an
/// additive one. `gateways` is ordered the same way: the first gateway rides
/// along with the primary address operation.
#[derive(Debug, Clone, PartialEq, Eq, Hash)]
pub struct NetworkProfile {
    pub name: String,
    pub ips: Vec<IP>,
    pub gateways: Vec<String>,
    pub dns: DNS,
    pub mac: Option<MAC>,
}

impl Default for NetworkProfile {
    fn default() -> (r: Self)
        ensures
            r.name@ == Seq::<char>::empty(),
            r.ips@ == Seq::<IP>::empty(),
            r.gateways@ == Seq::<String>::empty(),
            r.dns == DNS::Dhcp,
            r.mac is None,
    {
        NetworkProfile {
            name: String::new(),
            ips: Vec::new(),
            gateways: Vec::new(),
            dns: DNS::Dhcp,
            mac: None,
        }
    }
}

/// The elements of `s` at positions `pos` and beyond whose positions are not
/// listed in `indices`, in order.
pub open spec fn spec_keep_from<T>(s: Seq<T>, indices: Seq<usize>, pos: int) -> Seq<T>
    decreases s.len() - pos,
{
    if pos < 0 || pos >= s.len() {
        Seq::empty()
    } else if indices.contains(pos as usize) {
        spec_keep_from(s, indices, pos + 1)
    } else {
        seq![s[pos]] + spec_keep_from(s, indices, pos + 1)
    }
}

/// The elements of `s` whose positions are not listed in `indices`, in
/// order.
pub open spec fn spec_remove_indices<T>(s: Seq<T>, indices: Seq<usize>) -> Seq<T> {
    spec_keep_from(s, indices, 0)
}

/// Membership in `seq![j] + rest`, for a position other than `j`, is
/// membership in `rest`.
proof fn lemma_cons_contains(j: usize, rest: Seq<usize>, p: usize)
    requires
        p != j,
    ensures
        (seq![j] + rest).contains(p) == rest.contains(p),
{
    let full = seq![j] + rest;
    if rest.contains(p) {
        let w = choose|w: int| 0 <= w < rest.len() && rest[w] == p;
        assert(full.contains(p)) by {
            assert(full[w + 1] == p);
        }
    }
    if full.contains(p) {
        let w = choose|w: int| 0 <= w < full.len() && full[w] == p;
        assert(full[0] == j);
        assert(w > 0);
        assert(rest.contains(p)) by {
            assert(rest[w - 1] == p);
        }
    }
}

/// Whether one more listed position makes no difference beyond it: past `j`,
/// keeping by `seq![j] + rest` is keeping by `rest`.
proof fn lemma_keep_from_past<T>(s: Seq<T>, j: usize, rest: Seq<usize>, pos: int)
    requires
        j < pos,
        s.len() <= usize::MAX,
    ensures
        spec_keep_from(s, seq![j] + rest, pos) == spec_keep_from(s, rest, pos),
    decreases s.len() - pos,
{
    if 0 <= pos < s.len() {
        lemma_cons_contains(j, rest, pos as usize);
        lemma_keep_from_past(s, j, rest, pos + 1);
    }
}

/// With no positions listed, everything from `pos` on is kept.
proof fn lemma_keep_from_all<T>(s: Seq<T>, indices: Seq<usize>, pos: int)
    requires
        indices.len() == 0,
        0 <= pos <= s.len(),
    ensures
        spec_keep_from(s, indices, pos) == s.subrange(pos, s.len() as int),
    decreases s.len() - pos,
{
    if pos == s.len() {
        assert(spec_keep_from(s, indices, pos) =~= s.subrange(pos, s.len() as int));
    } else {
        lemma_keep_from_all(s, indices, pos + 1);
        assert(seq![s[pos]] + s.subrange(pos + 1, s.len() as int) =~= s.subrange(
            pos,
            s.len() as int,
        ));
    }
}

/// Removing the element that position `j` keeps, from what `rest` keeps,
/// is what `seq![j] + rest` keeps — provided every position `rest` lists
/// lies beyond `j`.
proof fn lemma_keep_from_remove<T>(s: Seq<T>, j: usize, rest: Seq<usize>, pos: int)
    requires
        0 <= pos <= j < s.len(),
        s.len() <= usize::MAX,
        forall|a: int| 0 <= a < rest.len() ==> j < #[trigger] rest[a],
    ensures
        spec_keep_from(s, rest, pos).len() > j - pos,
        spec_keep_from(s, rest, pos).remove(j - pos) == spec_keep_from(s, seq![j] + rest, pos),
    decreases j - pos,
{
    assert(!rest.contains(pos as usize));
    assert(!rest.contains(j));
    if pos == j {
        lemma_keep_from_past(s, j, rest, pos + 1);
        assert((seq![j] + rest).contains(j)) by {
            assert((seq![j] + rest)[0] == j);
        }
        let t = spec_keep_from(s, rest, pos + 1);
        assert((seq![s[pos]] + t).remove(0) =~= t);
    } else {
        lemma_cons_contains(j, rest, pos as usize);
        lemma_keep_from_remove(s, j, rest, pos + 1);
        let a = spec_keep_from(s, rest, pos + 1);
        let x = s[pos];
        assert((seq![x] + a).remove(j - pos) =~= seq![x] + a.remove(j - pos - 1));
    }
}

/// Removes the listed positions from `vec`. The positions must be strictly
/// increasing and in bounds; what remains are exactly the elements whose
/// positions were not listed, in their original order.
pub fn remove_items_by_indices<T>(vec: &mut Vec<T>, indices: Vec<usize>)
    requires
        forall|a: int| 0 <= a < indices@.len() ==> (#[trigger] indices@[a]) < old(vec)@.len(),
        forall|a: int, b: int| 0 <= a < b < indices@.len() ==> indices@[a] < indices@[b],
    ensures
        final(vec)@ == spec_remove_indices(old(vec)@, indices@),
{
    let ghost s0 = old(vec)@;
    let mut k = indices.len();
    proof {
        assert(old(vec).len() == s0.len());
        lemma_keep_from_all(s0, indices@.skip(k as int), 0);
        assert(s0.subrange(0, s0.len() as int) =~= s0);
    }
    while k > 0
        invariant
            k <= indices@.len(),
            forall|a: int| 0 <= a < indices@.len() ==> (#[trigger] indices@[a]) < s0.len(),
            forall|a: int, b: int| 0 <= a < b < indices@.len() ==> indices@[a] < indices@[b],
            s0.len() <= usize::MAX,
            vec@ == spec_remove_indices(s0, indices@.skip(k as int)),
        decreases k,
    {
        k -= 1;
        let idx = indices[k];
        proof {
            let rest = indices@.skip(k as int + 1);
            assert(indices@.skip(k as int) =~= seq![idx] + rest);
            assert(forall|a: int| 0 <= a < rest.len() ==> idx < #[trigger] rest[a]) by {
                assert(forall|a: int|
                    0 <= a < rest.len() ==> rest[a] == indices@[k as int + 1 + a]);
            }
            lemma_keep_from_remove(s0, idx, rest, 0);
        }
        vec.remove(idx);
    }
    proof {
        assert(indices@.skip(0) =~= indices@);
    }
}

} // verus!
