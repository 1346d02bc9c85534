use vstd::prelude::*;
use crate::parser::{AddrType, Host, HostModel, IpAddr, Metadata, Port};
use crate::parser;

verus! {

/// One binding of a service table: an address and a port.
#[derive(Debug, Clone)]
pub struct Hostservice {
    pub ip: String,
    pub port: u16,
    pub metadata: Metadata,
}

/// One service table: a service fingerprint and the bindings that expose it.
#[derive(Debug, Clone)]
pub struct Service {
    pub service: String,
    pub product: String,
    pub version: Option<String>,
    pub extrainfo: Option<String>,
    pub hosts: Vec<Hostservice>,
}

/// A service table as a mathematical value.
pub struct ServiceModel {
    pub service: String,
    pub product: String,
    pub version: Option<String>,
    pub extrainfo: Option<String>,
    pub hosts: Seq<Hostservice>,
}

impl View for Service {
    type V = ServiceModel;

    open spec fn view(&self) -> ServiceModel {
        ServiceModel {
            service: self.service,
            product: self.product,
            version: self.version,
            extrainfo: self.extrainfo,
            hosts: self.hosts@,
        }
    }
}

/// The service tables built so far, in order of creation.
#[derive(Debug, Clone)]
pub struct Tables {
    pub services: Vec<Service>,
}

impl View for Tables {
    type V = Seq<ServiceModel>;

    open spec fn view(&self) -> Seq<ServiceModel> {
        self.services@.map_values(|s: Service| s@)
    }
}

/// Equality of optional texts by their characters; absent equals only absent.
pub open spec fn same_text(a: Option<String>, b: Option<String>) -> bool {
    match (a, b) {
        (None, None) => true,
        (Some(x), Some(y)) => x@ == y@,
        _ => false,
    }
}

/// Whether a table's fingerprint is the one of a detected service.
pub open spec fn same_fingerprint(t: ServiceModel, s: parser::Service) -> bool {
    same_text(Some(t.service), s.name) && same_text(Some(t.product), s.product)
        && same_text(t.version, s.version) && same_text(t.extrainfo, s.extrainfo)
}

/// The index of the first table with the fingerprint of `s`, or the number
/// of tables when there is none.
pub open spec fn first_table(t: Seq<ServiceModel>, s: parser::Service) -> int
    decreases t.len(),
{
    if t.len() == 0 {
        0
    } else if same_fingerprint(t[0], s) {
        0
    } else {
        1 + first_table(t.drop_first(), s)
    }
}

/// One binding per address of the host that is not a MAC address, in order.
pub open spec fn bindings(addrs: Seq<IpAddr>, port: u16) -> Seq<Hostservice>
    decreases addrs.len(),
{
    if addrs.len() == 0 {
        Seq::empty()
    } else {
        let rest = bindings(addrs.drop_last(), port);
        if addrs.last().addr_type == AddrType::MAC {
            rest
        } else {
            rest.push(Hostservice { ip: addrs.last().address, port, metadata: Metadata::NoMetadata })
        }
    }
}

/// The tables after one port of a host: a port without a service changes
/// nothing; otherwise the first table with its fingerprint gets the host's
/// bindings, or a new table is appended with them.
pub open spec fn add_port(t: Seq<ServiceModel>, addrs: Seq<IpAddr>, p: Port) -> Seq<ServiceModel> {
    match p.service {
        None => t,
        Some(s) => {
            let i = first_table(t, s);
            if i < t.len() {
                t.update(i, ServiceModel { hosts: t[i].hosts + bindings(addrs, p.port), ..t[i] })
            } else {
                t.push(ServiceModel {
                    service: s.name->Some_0,
                    product: s.product->Some_0,
                    version: s.version,
                    extrainfo: s.extrainfo,
                    hosts: bindings(addrs, p.port),
                })
            }
        },
    }
}

/// The tables after the first `n` ports of a host, one port at a time.
pub open spec fn add_ports(t: Seq<ServiceModel>, h: HostModel, n: int) -> Seq<ServiceModel>
    decreases n,
{
    if n <= 0 {
        t
    } else {
        add_port(add_ports(t, h, n - 1), h.addresses, h.ports[n - 1])
    }
}

/// The tables after a whole host.
pub open spec fn add_host_spec(t: Seq<ServiceModel>, h: HostModel) -> Seq<ServiceModel> {
    add_ports(t, h, h.ports.len() as int)
}

/// Every detected service of the host has a name and a product.
pub open spec fn services_named(h: HostModel) -> bool {
    forall|i: int| 0 <= i < h.ports.len() && (#[trigger] h.ports[i]).service is Some ==> {
        let s = h.ports[i].service->Some_0;
        s.name is Some && s.product is Some
    }
}

/// A table made fresh from a detected service with a name and a product.
pub open spec fn fresh_table(s: parser::Service, hosts: Seq<Hostservice>) -> ServiceModel {
    ServiceModel {
        service: s.name->Some_0,
        product: s.product->Some_0,
        version: s.version,
        extrainfo: s.extrainfo,
        hosts,
    }
}

/// Two ports whose services share a fingerprint end in a single table, with
/// the bindings of the first port followed by those of the second; when the
/// second service differs from the first, it gets a second table.
pub proof fn lemma_merge(a1: Seq<IpAddr>, p1: Port, a2: Seq<IpAddr>, p2: Port)
    requires
        p1.service is Some,
        p2.service is Some,
        p1.service->Some_0.name is Some,
        p1.service->Some_0.product is Some,
    ensures
        ({
            let t = add_port(add_port(Seq::empty(), a1, p1), a2, p2);
            let s1 = p1.service->Some_0;
            let s2 = p2.service->Some_0;
            &&& same_fingerprint(fresh_table(s1, Seq::empty()), s2) ==> t.len() == 1
                && t[0].hosts == bindings(a1, p1.port) + bindings(a2, p2.port)
            &&& !same_fingerprint(fresh_table(s1, Seq::empty()), s2) ==> t.len() == 2
                && t[0].hosts == bindings(a1, p1.port)
        }),
{
    let t1 = add_port(Seq::empty(), a1, p1);
    let s1 = p1.service->Some_0;
    let s2 = p2.service->Some_0;
    assert(first_table(Seq::<ServiceModel>::empty(), s1) == 0);
    assert(t1 == seq![fresh_table(s1, bindings(a1, p1.port))]);
    assert(t1.drop_first() =~= Seq::<ServiceModel>::empty());
    assert(same_fingerprint(fresh_table(s1, Seq::empty()), s2) == same_fingerprint(t1[0], s2));
    assert(first_table(t1.drop_first(), s2) == 0);
    if same_fingerprint(t1[0], s2) {
        assert(first_table(t1, s2) == 0);
    } else {
        assert(first_table(t1, s2) == 1);
    }
}

/// A host whose addresses are all MAC addresses adds no binding: every table
/// keeps its bindings, and a table it creates has none.
pub proof fn lemma_mac_only(t: Seq<ServiceModel>, h: HostModel)
    requires
        forall|i: int| 0 <= i < h.addresses.len() ==> (#[trigger] h.addresses[i]).addr_type == AddrType::MAC,
    ensures
        add_host_spec(t, h).len() >= t.len(),
        forall|i: int| 0 <= i < t.len() ==> (#[trigger] add_host_spec(t, h)[i]).hosts == t[i].hosts,
        forall|i: int| t.len() <= i < add_host_spec(t, h).len() ==> (#[trigger] add_host_spec(t, h)[i]).hosts.len() == 0,
{
    lemma_no_bindings(h.addresses);
    lemma_mac_ports(t, h, h.ports.len() as int);
}

proof fn lemma_first_table_range(t: Seq<ServiceModel>, s: parser::Service)
    ensures
        0 <= first_table(t, s) <= t.len(),
    decreases t.len(),
{
    if t.len() > 0 {
        lemma_first_table_range(t.drop_first(), s);
    }
}

proof fn lemma_no_bindings(addrs: Seq<IpAddr>)
    requires
        forall|i: int| 0 <= i < addrs.len() ==> (#[trigger] addrs[i]).addr_type == AddrType::MAC,
    ensures
        forall|port: u16| (#[trigger] bindings(addrs, port)).len() == 0,
    decreases addrs.len(),
{
    if addrs.len() > 0 {
        lemma_no_bindings(addrs.drop_last());
        assert(addrs.last() == addrs[addrs.len() - 1]);
        assert forall|port: u16| (#[trigger] bindings(addrs, port)).len() == 0 by {
            assert(bindings(addrs, port) == bindings(addrs.drop_last(), port));
        }
    } else {
        assert forall|port: u16| (#[trigger] bindings(addrs, port)).len() == 0 by {}
    }
}

proof fn lemma_mac_ports(t: Seq<ServiceModel>, h: HostModel, n: int)
    requires
        0 <= n <= h.ports.len(),
        forall|port: u16| (#[trigger] bindings(h.addresses, port)).len() == 0,
    ensures
        add_ports(t, h, n).len() >= t.len(),
        forall|i: int| 0 <= i < t.len() ==> (#[trigger] add_ports(t, h, n)[i]).hosts == t[i].hosts,
        forall|i: int| t.len() <= i < add_ports(t, h, n).len() ==> (#[trigger] add_ports(t, h, n)[i]).hosts.len() == 0,
    decreases n,
{
    if n > 0 {
        lemma_mac_ports(t, h, n - 1);
        let prev = add_ports(t, h, n - 1);
        let p = h.ports[n - 1];
        let next = add_ports(t, h, n);
        assert(next == add_port(prev, h.addresses, p));
        assert(bindings(h.addresses, p.port).len() == 0);
        match p.service {
            None => {},
            Some(s) => {
                let i = first_table(prev, s);
                lemma_first_table_range(prev, s);
                if i < prev.len() {
                    assert(prev[i].hosts + bindings(h.addresses, p.port) =~= prev[i].hosts);
                    assert(next.len() == prev.len());
                    assert forall|j: int| 0 <= j < prev.len() implies (#[trigger] next[j]).hosts == prev[j].hosts by {}
                } else {
                    assert(next.len() == prev.len() + 1);
                    assert forall|j: int| 0 <= j < prev.len() implies (#[trigger] next[j]) == prev[j] by {}
                }
            },
        }
    }
}

fn same_opt(a: &Option<String>, b: &Option<String>) -> (r: bool)
    ensures
        r == same_text(*a, *b),
{
    match (a, b) {
        (None, None) => true,
        (Some(x), Some(y)) => *x == *y,
        _ => false,
    }
}

fn clone_opt(a: &Option<String>) -> (r: Option<String>)
    ensures
        r == *a,
{
    match a {
        None => None,
        Some(x) => Some(x.clone()),
    }
}

impl Tables {
    /// No tables.
    pub fn new() -> (r: Tables)
        ensures
            r@ == Seq::<ServiceModel>::empty(),
    {
        let r = Tables { services: Vec::new() };
        assert(r@ =~= Seq::<ServiceModel>::empty());
        r
    }

    /// Whether the table has the fingerprint of a detected service.
    fn correct_table(service: &Service, portservice: &parser::Service) -> (r: bool)
        ensures
            r == same_fingerprint(service@, *portservice),
    {
        match (&portservice.name, &portservice.product) {
            (Some(name), Some(product)) => service.service == *name && service.product == *product
                && same_opt(&service.version, &portservice.version)
                && same_opt(&service.extrainfo, &portservice.extrainfo),
            _ => false,
        }
    }

    /// Appends one binding per non-MAC address to a table.
    fn add_hostservice(service: &mut Service, addresses: &Vec<IpAddr>, port: u16)
        ensures
            final(service)@ == (ServiceModel {
                hosts: old(service)@.hosts + bindings(addresses@, port),
                ..old(service)@
            }),
    {
        let ghost start = service.hosts@;
        let mut i: usize = 0;
        assert(addresses@.take(0) =~= Seq::<IpAddr>::empty());
        assert(start + bindings(Seq::<IpAddr>::empty(), port) =~= start);
        while i < addresses.len()
            invariant
                i <= addresses@.len(),
                service@ == (ServiceModel {
                    hosts: start + bindings(addresses@.take(i as int), port),
                    ..old(service)@
                }),
            decreases addresses.len() - i,
        {
            let a = &addresses[i];
            assert(addresses@.take(i + 1).drop_last() =~= addresses@.take(i as int));
            match a.addr_type {
                AddrType::MAC => {},
                _ => {
                    service.hosts.push(Hostservice { ip: a.address.clone(), port, metadata: Metadata::NoMetadata });
                    assert(service.hosts@ =~= start + bindings(addresses@.take(i + 1), port));
                },
            }
            i = i + 1;
        }
        assert(addresses@.take(addresses@.len() as int) =~= addresses@);
    }

    /// The index of the first table with the fingerprint of `s`, or the
    /// number of tables.
    fn find_table(&self, s: &parser::Service) -> (r: usize)
        ensures
            r == first_table(self@, *s),
    {
        let mut i: usize = 0;
        assert(self@.subrange(0, self@.len() as int) =~= self@);
        while i < self.services.len()
            invariant
                i <= self@.len(),
                first_table(self@, *s) == i + first_table(self@.subrange(i as int, self@.len() as int), *s),
            decreases self.services.len() - i,
        {
            let ghost rest = self@.subrange(i as int, self@.len() as int);
            assert(rest.drop_first() =~= self@.subrange(i + 1, self@.len() as int));
            if Tables::correct_table(&self.services[i], s) {
                return i;
            }
            i = i + 1;
        }
        i
    }

    /// Whether every detected service of the host has a name and a product,
    /// as a new table needs.
    pub fn accepts(host: &Host) -> (r: bool)
        ensures
            r == services_named(host@),
    {
        let mut j: usize = 0;
        while j < host.ports.len()
            invariant
                j <= host@.ports.len(),
                forall|i: int| 0 <= i < j && (#[trigger] host@.ports[i]).service is Some ==> {
                    let s = host@.ports[i].service->Some_0;
                    s.name is Some && s.product is Some
                },
            decreases host.ports.len() - j,
        {
            match &host.ports[j].service {
                Some(s) => {
                    if s.name.is_none() || s.product.is_none() {
                        assert(host@.ports[j as int].service is Some);
                        return false;
                    }
                },
                None => {},
            }
            j = j + 1;
        }
        true
    }

    /// Folds the host's ports, in order, into the tables.
    pub fn add_host(&mut self, host: &Host)
        requires
            services_named(host@),
        ensures
            final(self)@ == add_host_spec(old(self)@, host@),
    {
        let mut j: usize = 0;
        while j < host.ports.len()
            invariant
                j <= host@.ports.len(),
                services_named(host@),
                self@ == add_ports(old(self)@, host@, j as int),
            decreases host.ports.len() - j,
        {
            let port = &host.ports[j];
            match &port.service {
                None => {},
                Some(s) => {
                    let ghost t = self@;
                    let idx = self.find_table(s);
                    if idx < self.services.len() {
                        Tables::add_hostservice(&mut self.services[idx], &host.addresses, port.port);
                        assert(self@ =~= add_port(t, host@.addresses, *port));
                    } else {
                        assert(host@.ports[j as int] == *port);
                        let (name, product) = match (&s.name, &s.product) {
                            (Some(n), Some(p)) => (n.clone(), p.clone()),
                            _ => { assert(false); (String::new(), String::new()) },
                        };
                        let mut entry = Service {
                            service: name,
                            product,
                            version: clone_opt(&s.version),
                            extrainfo: clone_opt(&s.extrainfo),
                            hosts: Vec::new(),
                        };
                        Tables::add_hostservice(&mut entry, &host.addresses, port.port);
                        assert(Seq::<Hostservice>::empty() + bindings(host@.addresses, port.port) =~= bindings(host@.addresses, port.port));
                        self.services.push(entry);
                        assert(self@ =~= add_port(t, host@.addresses, *port));
                    }
                },
            }
            j = j + 1;
        }
    }
}

} // verus!
