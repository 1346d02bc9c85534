use vstd::prelude::*;
use crate::detail::{add_host_spec, services_named, ServiceModel, Tables};
use crate::parser::{Host, HostModel};
use crate::renderer::{concat, network_cells, network_height, service_cells, Drawio, FOOTER, HEADER};
use crate::server::{items_of, ItemModel, Server};
use crate::text::{decimal, decimal_text, push_text};
use crate::topology::{distance, members, members_spec};

verus! {

/// Why a diagram could not be laid out.
#[derive(Debug, Clone, Copy, PartialEq, Eq, Structural)]
pub enum LayoutError {
    /// A detected service lacks a name or a product.
    UnnamedService,
    /// A coordinate or size does not fit in 64 bits.
    TooLarge,
}

/// The largest path distance among the hosts (0 for none).
pub open spec fn max_distance(hs: Seq<HostModel>) -> nat
    decreases hs.len(),
{
    if hs.len() == 0 {
        0
    } else {
        let m = max_distance(hs.drop_last());
        if distance(hs.last()) > m { distance(hs.last()) } else { m }
    }
}

/// The distances below `upto` that some host has, in ascending order.
pub open spec fn present(hs: Seq<HostModel>, upto: nat) -> Seq<nat>
    decreases upto,
{
    if upto == 0 {
        Seq::empty()
    } else {
        let p = present(hs, (upto - 1) as nat);
        if members_spec(hs, (upto - 1) as nat, hs.len() as int).len() > 0 {
            p.push((upto - 1) as nat)
        } else {
            p
        }
    }
}

/// The boxes of the hosts at distance `d`, in list order.
pub open spec fn cluster(hs: Seq<HostModel>, d: nat) -> Seq<Seq<ItemModel>> {
    members_spec(hs, d, hs.len() as int).map_values(|i: usize| items_of(hs[i as int]))
}

/// The height at which the cluster after those of `ds` starts: each cluster
/// is followed by its height, padding and a gap.
pub open spec fn stack_y(hs: Seq<HostModel>, ds: Seq<nat>) -> nat
    decreases ds.len(),
{
    if ds.len() == 0 {
        10
    } else {
        stack_y(hs, ds.drop_last()) + 20 + network_height(cluster(hs, ds.last()).len()) + 10
    }
}

/// The clusters of the distances `ds`, stacked from the top.
pub open spec fn stack(hs: Seq<HostModel>, ds: Seq<nat>) -> Seq<Seq<char>>
    decreases ds.len(),
{
    if ds.len() == 0 {
        Seq::empty()
    } else {
        let c = cluster(hs, ds.last());
        stack(hs, ds.drop_last()) + network_cells(
            c, 10, stack_y(hs, ds.drop_last()), "1"@, "network-"@ + decimal(ds.last()), c.len() as int)
    }
}

/// Every cluster of the stack ends within 64-bit coordinates.
pub open spec fn stack_fits(hs: Seq<HostModel>, ds: Seq<nat>) -> bool
    decreases ds.len(),
{
    ds.len() == 0 || (stack_fits(hs, ds.drop_last()) && stack_y(hs, ds) <= u64::MAX)
}

/// The service tables after the first `n` hosts.
pub open spec fn all_tables(hs: Seq<HostModel>, n: int) -> Seq<ServiceModel>
    decreases n,
{
    if n <= 0 { Seq::empty() } else { add_host_spec(all_tables(hs, n - 1), hs[n - 1]) }
}

/// The left edge of the table with number `id`.
pub open spec fn table_x(id: nat) -> nat {
    1000 + id * 180
}

/// The first `n` tables side by side, numbered from `first`.
pub open spec fn table_cells(ts: Seq<ServiceModel>, first: nat, n: int) -> Seq<Seq<char>>
    decreases n,
{
    if n <= 0 {
        Seq::empty()
    } else {
        let id = (first + n - 1) as nat;
        table_cells(ts, first, n - 1) + service_cells(ts[n - 1], table_x(id), 20, "1"@, "table"@ + decimal(id))
    }
}

/// Every table's height and position fit in 64 bits.
pub open spec fn tables_fit(ts: Seq<ServiceModel>, first: nat) -> bool {
    forall|k: int| 0 <= k < ts.len() ==> 20 * ((#[trigger] ts[k]).hosts.len() + 3) <= u64::MAX
        && table_x((first + k) as nat) <= u64::MAX
}

/// Every host's box has a height that fits in 64 bits.
pub open spec fn items_fit(hs: Seq<HostModel>) -> bool {
    forall|i: int| 0 <= i < hs.len() ==> 20 * items_of(#[trigger] hs[i]).len() <= u64::MAX
}

/// Every detected service of every host has a name and a product.
pub open spec fn all_named(hs: Seq<HostModel>) -> bool {
    forall|i: int| 0 <= i < hs.len() ==> services_named(#[trigger] hs[i])
}

/// The distances of the clusters, nearest first.
pub open spec fn distances(hs: Seq<HostModel>) -> Seq<nat> {
    present(hs, max_distance(hs) + 1)
}

/// The whole layout fits in 64-bit coordinates.
pub open spec fn layout_fits(hs: Seq<HostModel>) -> bool {
    let ds = distances(hs);
    items_fit(hs) && stack_fits(hs, ds) && tables_fit(all_tables(hs, hs.len() as int), 1 + ds.len())
}

/// The records of the diagram: the opening, the clusters stacked by distance,
/// the service tables side by side, the closing.
pub open spec fn diagram(hs: Seq<HostModel>) -> Seq<Seq<char>> {
    let ds = distances(hs);
    let ts = all_tables(hs, hs.len() as int);
    seq![HEADER@] + stack(hs, ds) + table_cells(ts, 1 + ds.len(), ts.len() as int) + seq![FOOTER@]
}

proof fn lemma_present_fits(hs: Seq<HostModel>, a: nat, b: nat)
    requires
        a <= b,
        stack_fits(hs, present(hs, b)),
    ensures
        stack_fits(hs, present(hs, a)),
    decreases b,
{
    if a < b {
        let p = present(hs, (b - 1) as nat);
        if members_spec(hs, (b - 1) as nat, hs.len() as int).len() > 0 {
            assert(present(hs, b).drop_last() =~= p);
        }
        lemma_present_fits(hs, a, (b - 1) as nat);
    }
}


/// The boxes of the hosts at distance `d`.
fn cluster_servers(hosts: &Vec<Host>, d: usize) -> (r: Vec<Server>)
    ensures
        r@.map_values(|s: Server| s@) == cluster(hosts@.map_values(|h: Host| h@), d as nat),
{
    let ghost hs = hosts@.map_values(|h: Host| h@);
    let m = members(hosts, d);
    let mut r: Vec<Server> = Vec::new();
    let mut j: usize = 0;
    while j < m.len()
        invariant
            j <= m@.len(),
            hs == hosts@.map_values(|h: Host| h@),
            m@ == members_spec(hs, d as nat, hosts@.len() as int),
            forall|k: int| 0 <= k < m@.len() ==> (#[trigger] m@[k]) < hosts@.len(),
            r@.map_values(|s: Server| s@) == m@.take(j as int).map_values(|i: usize| items_of(hs[i as int])),
        decreases m.len() - j,
    {
        let i = m[j];
        let s = Server::of_host(&hosts[i]);
        assert(hs[i as int] == hosts@[i as int]@);
        let ghost before = r@;
        r.push(s);
        assert(r@.map_values(|s: Server| s@) =~= before.map_values(|s: Server| s@).push(items_of(hs[i as int])));
        assert(m@.take(j + 1).map_values(|i: usize| items_of(hs[i as int]))
            =~= m@.take(j as int).map_values(|i: usize| items_of(hs[i as int])).push(items_of(hs[i as int])));
        assert(r@.map_values(|s: Server| s@) =~= m@.take(j + 1).map_values(|i: usize| items_of(hs[i as int])));
        j = j + 1;
    }
    assert(m@.take(j as int) =~= m@);
    r
}

fn check_named(hosts: &Vec<Host>) -> (r: bool)
    ensures
        r == all_named(hosts@.map_values(|h: Host| h@)),
{
    let ghost hs = hosts@.map_values(|h: Host| h@);
    let mut i: usize = 0;
    while i < hosts.len()
        invariant
            i <= hosts@.len(),
            hs == hosts@.map_values(|h: Host| h@),
            forall|j: int| 0 <= j < i ==> services_named(#[trigger] hs[j]),
        decreases hosts.len() - i,
    {
        assert(hs[i as int] == hosts@[i as int]@);
        if !Tables::accepts(&hosts[i]) {
            return false;
        }
        i = i + 1;
    }
    true
}

/// The largest distance, when every host's box fits.
fn check_items(hosts: &Vec<Host>) -> (r: Option<usize>)
    ensures
        r is Some <==> items_fit(hosts@.map_values(|h: Host| h@)),
        r is Some ==> r->Some_0 == max_distance(hosts@.map_values(|h: Host| h@)),
{
    let ghost hs = hosts@.map_values(|h: Host| h@);
    let n: usize = hosts.len();
    let mut i: usize = 0;
    let mut most: usize = 0;
    assert(hs.take(0) =~= Seq::<HostModel>::empty());
    while i < n
        invariant
            i <= n,
            n == hosts@.len(),
            hs == hosts@.map_values(|h: Host| h@),
            forall|j: int| 0 <= j < i ==> 20 * items_of(#[trigger] hs[j]).len() <= u64::MAX,
            most == max_distance(hs.take(i as int)),
        decreases n - i,
    {
        assert(hs[i as int] == hosts@[i as int]@);
        assert(hs.take(i + 1).drop_last() =~= hs.take(i as int));
        let s = Server::of_host(&hosts[i]);
        assert(s.items@.len() == items_of(hs[i as int]).len());
        if s.items.len() as u128 * 20 > u64::MAX as u128 {
            assert(!items_fit(hs));
            return None;
        }
        if hosts[i].hops.len() > most {
            most = hosts[i].hops.len();
        }
        i = i + 1;
    }
    assert(hs.take(n as int) =~= hs);
    Some(most)
}

proof fn lemma_present_len(hs: Seq<HostModel>, upto: nat)
    ensures
        present(hs, upto).len() <= upto,
    decreases upto,
{
    if upto > 0 {
        lemma_present_len(hs, (upto - 1) as nat);
    }
}

proof fn lemma_members_bound(hs: Seq<HostModel>, d: nat, n: int)
    requires
        n <= usize::MAX,
    ensures
        forall|k: int| 0 <= k < members_spec(hs, d, n).len() ==> (#[trigger] members_spec(hs, d, n)[k]) < n,
    decreases n,
{
    if n > 0 {
        lemma_members_bound(hs, d, n - 1);
        let p = members_spec(hs, d, n - 1);
        assert forall|k: int| 0 <= k < members_spec(hs, d, n).len() implies (#[trigger] members_spec(hs, d, n)[k]) < n by {
            if k < p.len() {
                assert(members_spec(hs, d, n)[k] == p[k]);
            }
        }
    }
}

/// Every box of a cluster fits when every host's box does.
proof fn lemma_cluster_fits(hs: Seq<HostModel>, d: nat)
    requires
        items_fit(hs),
        hs.len() <= usize::MAX,
    ensures
        forall|k: int| 0 <= k < cluster(hs, d).len() ==> 20 * (#[trigger] cluster(hs, d)[k]).len() <= u64::MAX,
{
    let m = members_spec(hs, d, hs.len() as int);
    lemma_members_bound(hs, d, hs.len() as int);
    assert forall|k: int| 0 <= k < cluster(hs, d).len() implies 20 * (#[trigger] cluster(hs, d)[k]).len() <= u64::MAX by {
        assert(cluster(hs, d)[k] == items_of(hs[m[k] as int]));
        assert(m[k] < hs.len());
    }
}

/// Draws the clusters nearest first, each below the one before; returns the
/// number of clusters, or `None` when the stack does not fit.
#[verifier::rlimit(50)]
fn draw_clusters(canvas: &mut Drawio, hosts: &Vec<Host>, most: usize) -> (r: Option<u128>)
    requires
        items_fit(hosts@.map_values(|h: Host| h@)),
        most == max_distance(hosts@.map_values(|h: Host| h@)),
    ensures
        r is Some <==> stack_fits(hosts@.map_values(|h: Host| h@), distances(hosts@.map_values(|h: Host| h@))),
        r is Some ==> r->Some_0 == distances(hosts@.map_values(|h: Host| h@)).len()
            && final(canvas)@ == old(canvas)@ + stack(hosts@.map_values(|h: Host| h@), distances(hosts@.map_values(|h: Host| h@))),
{
    let ghost hs = hosts@.map_values(|h: Host| h@);
    let mut y: u64 = 10;
    let mut clusters: u128 = 0;
    let count: usize = hosts.len();
    assert(hs.len() == count);
    let mut d: usize = 0;
    let mut done = false;
    let ghost mut upto: nat = 0;
    let ghost mut ds: Seq<nat> = Seq::empty();
    assert(canvas@ =~= old(canvas)@ + stack(hs, ds));
    while !done
        invariant
            hs == hosts@.map_values(|h: Host| h@),
            most == max_distance(hs),
            items_fit(hs),
            hs.len() <= usize::MAX,
            done ==> upto == most + 1,
            !done ==> upto == d && d <= most,
            ds == present(hs, upto),
            clusters == ds.len(),
            clusters <= upto,
            stack_fits(hs, ds),
            y == stack_y(hs, ds),
            canvas@ == old(canvas)@ + stack(hs, ds),
        decreases most + 1 - upto,
    {
        let servers = cluster_servers(hosts, d);
        let ghost c = cluster(hs, d as nat);
        assert(members_spec(hs, d as nat, hs.len() as int).len() == c.len());
        if servers.len() > 0 {
            let count: u128 = servers.len() as u128;
            let bottom: u128 = y as u128 + 20 + (count / 8 + 1) * 200 + 10;
            let ghost next = ds.push(d as nat);
            assert(next.drop_last() =~= ds);
            assert(present(hs, upto + 1) == next);
            assert(bottom == stack_y(hs, next));
            if bottom > u64::MAX as u128 {
                proof { lemma_present_fits_not(hs, upto + 1, (most + 1) as nat); }
                return None;
            }
            let mut id = "network-".to_owned();
            push_text(&mut id, decimal_text(d as u64).as_str());
            proof {
                lemma_cluster_fits(hs, d as nat);
                assert forall|k: int| 0 <= k < servers@.len() implies 20 * (#[trigger] servers@[k])@.len() <= u64::MAX by {
                    assert(servers@.map_values(|s: Server| s@)[k] == servers@[k]@);
                    assert(c[k] == servers@[k]@);
                }
            }
            let after = canvas.network(servers, &[10, y], &"1".to_owned(), id);
            y = after + 10;
            clusters = clusters + 1;
            proof {
                ds = next;
                assert(canvas@ =~= old(canvas)@ + stack(hs, ds));
            }
        } else {
            assert(present(hs, upto + 1) == ds);
        }
        proof { upto = upto + 1; }
        if d == most {
            done = true;
        } else {
            d = d + 1;
        }
    }
    Some(clusters)
}

/// The tables of all hosts, one host at a time.
fn build_tables(hosts: &Vec<Host>) -> (r: Tables)
    requires
        all_named(hosts@.map_values(|h: Host| h@)),
    ensures
        r@ == all_tables(hosts@.map_values(|h: Host| h@), hosts@.len() as int),
{
    let ghost hs = hosts@.map_values(|h: Host| h@);
    let mut tables = Tables::new();
    let mut i: usize = 0;
    assert(tables@ =~= all_tables(hs, 0));
    while i < hosts.len()
        invariant
            i <= hosts@.len(),
            hs == hosts@.map_values(|h: Host| h@),
            all_named(hs),
            tables@ == all_tables(hs, i as int),
        decreases hosts.len() - i,
    {
        assert(hs[i as int] == hosts@[i as int]@);
        assert(services_named(hs[i as int]));
        tables.add_host(&hosts[i]);
        i = i + 1;
    }
    tables
}

/// Draws the tables side by side, numbered from `first`; false when they do
/// not fit.
fn draw_tables(canvas: &mut Drawio, tables: &Tables, first: u128) -> (r: bool)
    requires
        first <= u64::MAX + 2,
    ensures
        r == tables_fit(tables@, first as nat),
        r ==> final(canvas)@ == old(canvas)@ + table_cells(tables@, first as nat, tables@.len() as int),
{
    let ghost ts = tables@;
    let t: usize = tables.services.len();
    let mut k: usize = 0;
    while k < t
        invariant
            k <= t,
            t == ts.len(),
            ts == tables@,
            first <= u64::MAX + 2,
            forall|j: int| 0 <= j < k ==> 20 * ((#[trigger] ts[j]).hosts.len() + 3) <= u64::MAX
                && table_x((first + j) as nat) <= u64::MAX,
            canvas@ == old(canvas)@ + table_cells(ts, first as nat, k as int),
        decreases t - k,
    {
        let id_number: u128 = first + k as u128;
        let x: u128 = 1000 + id_number * 180;
        let rows: u128 = tables.services[k].hosts.len() as u128 + 3;
        assert(tables.services@[k as int]@ == ts[k as int]);
        assert(x == table_x((first + k) as nat));
        if x > u64::MAX as u128 || rows * 20 > u64::MAX as u128 {
            assert(!tables_fit(ts, first as nat));
            return false;
        }
        let mut id = "table".to_owned();
        push_text(&mut id, decimal_text(id_number as u64).as_str());
        canvas.draw_service(&tables.services[k], &[x as u64, 20], &"1".to_owned(), &id);
        assert(canvas@ =~= old(canvas)@ + table_cells(ts, first as nat, k + 1));
        k = k + 1;
    }
    true
}

/// Lays out a whole report: the hosts grouped into clusters by distance and
/// stacked from the top, nearest first, then the service tables side by side,
/// each numbered after the clusters; returns the diagram's text.
pub fn render(hosts: &Vec<Host>) -> (r: Result<String, LayoutError>)
    ensures
        !all_named(hosts@.map_values(|h: Host| h@)) ==> r == Err::<String, LayoutError>(LayoutError::UnnamedService),
        all_named(hosts@.map_values(|h: Host| h@)) && !layout_fits(hosts@.map_values(|h: Host| h@))
            ==> r == Err::<String, LayoutError>(LayoutError::TooLarge),
        all_named(hosts@.map_values(|h: Host| h@)) && layout_fits(hosts@.map_values(|h: Host| h@))
            ==> r is Ok && r->Ok_0@ == concat(diagram(hosts@.map_values(|h: Host| h@))),
{
    let ghost hs = hosts@.map_values(|h: Host| h@);
    if !check_named(hosts) {
        return Err(LayoutError::UnnamedService);
    }
    let most = match check_items(hosts) {
        Some(m) => m,
        None => { return Err(LayoutError::TooLarge); },
    };
    let mut canvas = Drawio::new();
    let clusters = match draw_clusters(&mut canvas, hosts, most) {
        Some(c) => c,
        None => { return Err(LayoutError::TooLarge); },
    };
    let tables = build_tables(hosts);
    assert(clusters <= usize::MAX + 1) by {
        lemma_present_len(hs, (most + 1) as nat);
    }
    let first: u128 = clusters + 1;
    if !draw_tables(&mut canvas, &tables, first) {
        return Err(LayoutError::TooLarge);
    }
    let ghost body = canvas@;
    let out = canvas.serialize();
    assert(body.push(FOOTER@) =~= diagram(hs));
    Ok(out)
}

proof fn lemma_present_fits_not(hs: Seq<HostModel>, a: nat, b: nat)
    requires
        a <= b,
        !stack_fits(hs, present(hs, a)),
    ensures
        !stack_fits(hs, present(hs, b)),
{
    if stack_fits(hs, present(hs, b)) {
        lemma_present_fits(hs, a, b);
    }
}

} // verus!
