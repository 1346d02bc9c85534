use vstd::prelude::*;
use crate::parser::{Host, HostModel};

verus! {

/// The hosts that share one path distance, by index into the host list.
#[derive(Debug, Clone)]
pub struct Bucket {
    pub distance: usize,
    pub members: Vec<usize>,
}

/// The path distance of a host: the number of its trace hops.
pub open spec fn distance(h: HostModel) -> nat {
    h.hops.len()
}

/// The indices below `n` of the hosts at distance `d`, in ascending order.
pub open spec fn members_spec(hs: Seq<HostModel>, d: nat, n: int) -> Seq<usize>
    decreases n,
{
    if n <= 0 {
        Seq::empty()
    } else {
        let r = members_spec(hs, d, n - 1);
        if distance(hs[n - 1]) == d {
            r.push((n - 1) as usize)
        } else {
            r
        }
    }
}

/// A bucket list groups the hosts by distance: one bucket per distance that
/// occurs, in ascending order of distance, each holding its hosts in list
/// order.
pub open spec fn is_grouping(hs: Seq<HostModel>, b: Seq<Bucket>) -> bool {
    &&& forall|k: int| 0 <= k < b.len() ==>
        (#[trigger] b[k]).members@ == members_spec(hs, b[k].distance as nat, hs.len() as int)
    &&& forall|k: int| 0 <= k < b.len() ==> (#[trigger] b[k]).members@.len() > 0
    &&& forall|k: int, l: int| 0 <= k < l < b.len() ==> b[k].distance < b[l].distance
    &&& forall|i: int| 0 <= i < hs.len() ==> has_bucket(b, distance(#[trigger] hs[i]))
}

/// Some bucket is for distance `d`.
pub open spec fn has_bucket(b: Seq<Bucket>, d: nat) -> bool {
    exists|k: int| 0 <= k < b.len() && (#[trigger] b[k]).distance == d
}

proof fn lemma_members(hs: Seq<HostModel>, d: nat, n: int)
    requires
        0 <= n <= hs.len(),
    ensures
        members_spec(hs, d, n).len() == 0 <==> forall|i: int| 0 <= i < n ==> distance(#[trigger] hs[i]) != d,
    decreases n,
{
    if n > 0 {
        lemma_members(hs, d, n - 1);
    }
}

/// The indices of the hosts at distance `d`, in list order.
pub fn members(hosts: &Vec<Host>, d: usize) -> (r: Vec<usize>)
    ensures
        forall|k: int| 0 <= k < r@.len() ==> (#[trigger] r@[k]) < hosts@.len(),
        r@ == members_spec(hosts@.map_values(|h: Host| h@), d as nat, hosts@.len() as int),
{
    let ghost hs = hosts@.map_values(|h: Host| h@);
    let mut r: Vec<usize> = Vec::new();
    let mut i: usize = 0;
    while i < hosts.len()
        invariant
            i <= hosts@.len(),
            hs == hosts@.map_values(|h: Host| h@),
            r@ == members_spec(hs, d as nat, i as int),
            forall|k: int| 0 <= k < r@.len() ==> (#[trigger] r@[k]) < i,
        decreases hosts.len() - i,
    {
        assert(hs[i as int] == hosts@[i as int]@);
        if hosts[i].hops.len() == d {
            r.push(i);
        }
        i = i + 1;
    }
    r
}

/// Groups hosts by path distance, nearest first; within a group hosts keep
/// their order.
pub fn group(hosts: &Vec<Host>) -> (r: Vec<Bucket>)
    ensures
        is_grouping(hosts@.map_values(|h: Host| h@), r@),
{
    let ghost hs = hosts@.map_values(|h: Host| h@);
    let mut most: usize = 0;
    let mut i: usize = 0;
    while i < hosts.len()
        invariant
            i <= hosts@.len(),
            hs == hosts@.map_values(|h: Host| h@),
            forall|j: int| 0 <= j < i ==> distance(#[trigger] hs[j]) <= most,
        decreases hosts.len() - i,
    {
        assert(hs[i as int] == hosts@[i as int]@);
        if hosts[i].hops.len() > most {
            most = hosts[i].hops.len();
        }
        i = i + 1;
    }
    let mut r: Vec<Bucket> = Vec::new();
    let mut d: usize = 0;
    let mut done = false;
    let ghost mut upto: int = 0;
    while !done
        invariant
            hs == hosts@.map_values(|h: Host| h@),
            forall|j: int| 0 <= j < hs.len() ==> distance(#[trigger] hs[j]) <= most,
            done ==> upto == most + 1,
            !done ==> upto == d && d <= most,
            forall|k: int| 0 <= k < r@.len() ==>
                (#[trigger] r@[k]).members@ == members_spec(hs, r@[k].distance as nat, hs.len() as int),
            forall|k: int| 0 <= k < r@.len() ==> (#[trigger] r@[k]).members@.len() > 0,
            forall|k: int| 0 <= k < r@.len() ==> (#[trigger] r@[k]).distance < upto,
            forall|k: int, l: int| 0 <= k < l < r@.len() ==> r@[k].distance < r@[l].distance,
            forall|j: int| 0 <= j < hs.len() && distance(#[trigger] hs[j]) < upto ==>
                has_bucket(r@, distance(hs[j])),
        decreases most + 1 - upto,
    {
        let m = members(hosts, d);
        proof { lemma_members(hs, d as nat, hs.len() as int); }
        if m.len() > 0 {
            let ghost old_r = r@;
            r.push(Bucket { distance: d, members: m });
            assert forall|j: int| 0 <= j < hs.len() && distance(#[trigger] hs[j]) < d + 1 implies
                has_bucket(r@, distance(hs[j])) by {
                if distance(hs[j]) < d {
                    let k = choose|k: int| 0 <= k < old_r.len() && (#[trigger] old_r[k]).distance == distance(hs[j]);
                    assert(r@[k] == old_r[k]);
                } else {
                    assert(r@[old_r.len() as int].distance == distance(hs[j]));
                }
            }
        } else {
            assert forall|j: int| 0 <= j < hs.len() && distance(#[trigger] hs[j]) < d + 1 implies
                has_bucket(r@, distance(hs[j])) by {
                if distance(hs[j]) == d {
                    assert(false);
                }
            }
        }
        proof { upto = upto + 1; }
        if d == most {
            done = true;
        } else {
            d = d + 1;
        }
    }
    assert forall|j: int| 0 <= j < hs.len() implies has_bucket(r@, distance(#[trigger] hs[j])) by {
        assert(distance(hs[j]) <= most);
    }
    r
}

} // verus!
