use vstd::prelude::*;
use crate::events::{attribute, find_attr, Attribute, EventKind, XmlEvent};
use crate::text::{is_text, parse_port, port_number};

verus! {

/// Extra data that a port may carry.
#[derive(Debug, Clone)]
pub enum Metadata {
    SSH(String),
    NoMetadata,
}

/// The address family of an address.
#[derive(Debug, Clone, Copy, PartialEq, Eq, Structural)]
pub enum AddrType {
    IPv4,
    IPv6,
    MAC,
}

impl AddrType {
    /// The family that an `addrtype` value names, if any (exact match).
    pub open spec fn family_of(name: Seq<char>) -> Option<AddrType> {
        if name == "mac"@ {
            Some(AddrType::MAC)
        } else if name == "ipv4"@ {
            Some(AddrType::IPv4)
        } else if name == "ipv6"@ {
            Some(AddrType::IPv6)
        } else {
            None
        }
    }

    /// Classifies an `addrtype` value; `None` for any other text.
    pub fn parse(name: &String) -> (r: Option<AddrType>)
        ensures
            r == AddrType::family_of(name@),
    {
        if is_text(name, "mac") {
            Some(AddrType::MAC)
        } else if is_text(name, "ipv4") {
            Some(AddrType::IPv4)
        } else if is_text(name, "ipv6") {
            Some(AddrType::IPv6)
        } else {
            None
        }
    }
}

/// One address of a host.
#[derive(Debug, Clone)]
pub struct IpAddr {
    pub address: String,
    pub addr_type: AddrType,
}

/// What was detected behind a port.
#[derive(Debug, Clone)]
pub struct Service {
    pub name: Option<String>,
    pub product: Option<String>,
    pub version: Option<String>,
    pub extrainfo: Option<String>,
}

/// One open port of a host.
#[derive(Debug, Clone)]
pub struct Port {
    pub protocol: String,
    pub port: u16,
    pub service: Option<Service>,
    pub metadata: Metadata,
}

/// Addresses that share one fingerprint.
#[derive(Debug, Clone)]
pub struct DuplicateKeys {
    pub addresses: Vec<IpAddr>,
    pub fingerprint: String,
}

/// One scanned host.
#[derive(Debug, Clone)]
pub struct Host {
    pub addresses: Vec<IpAddr>,
    pub hostnames: Vec<String>,
    pub ports: Vec<Port>,
    pub os: Option<String>,
    pub hops: Vec<String>,
}

/// A host as a mathematical value.
pub struct HostModel {
    pub addresses: Seq<IpAddr>,
    pub hostnames: Seq<String>,
    pub ports: Seq<Port>,
    pub os: Option<String>,
    pub hops: Seq<String>,
}

impl View for Host {
    type V = HostModel;

    open spec fn view(&self) -> HostModel {
        HostModel {
            addresses: self.addresses@,
            hostnames: self.hostnames@,
            ports: self.ports@,
            os: self.os,
            hops: self.hops@,
        }
    }
}

/// A host with nothing recorded.
pub open spec fn empty_host() -> HostModel {
    HostModel {
        addresses: Seq::empty(),
        hostnames: Seq::empty(),
        ports: Seq::empty(),
        os: None,
        hops: Seq::empty(),
    }
}

impl Host {
    /// A host with nothing recorded yet.
    pub fn new() -> (r: Host)
        ensures
            r@ == empty_host(),
    {
        Host {
            addresses: Vec::new(),
            hostnames: Vec::new(),
            ports: Vec::new(),
            os: None,
            hops: Vec::new(),
        }
    }
}

/// The element in which a malformed record was found.
#[derive(Debug, Clone, Copy, PartialEq, Eq, Structural)]
pub enum Element {
    Address,
    Hostname,
    Port,
    Hop,
}

/// The attribute that was missing or invalid.
#[derive(Debug, Clone, Copy, PartialEq, Eq, Structural)]
pub enum Field {
    Addr,
    AddrType,
    Name,
    Protocol,
    PortId,
    IpAddr,
}

/// A malformed record: the index of the host being read, the element and the
/// attribute at fault.
#[derive(Debug, Clone, Copy, PartialEq, Eq, Structural)]
pub enum ParseError {
    /// A required attribute is absent.
    MissingAttribute { host: usize, element: Element, field: Field },
    /// An attribute's value is not one that the schema allows.
    InvalidValue { host: usize, element: Element, field: Field },
}

/// Where the parser stands in the document.
#[derive(Debug, Clone, Copy, PartialEq, Eq, Structural)]
pub enum ParserState {
    Ignore,
    WaitingForHost,
    Host,
    Hostnames,
    Ports,
    Port,
    Hops,
    Done,
}

/// The parser as a mathematical value.
pub struct ParserModel {
    pub state: ParserState,
    pub hosts: Seq<HostModel>,
    pub current_host: HostModel,
    pub current_port: Option<Port>,
}

/// Rebuilds host records from the markup events of a scan report.
pub struct Parser {
    state: ParserState,
    hosts: Vec<Host>,
    current_host: Host,
    current_port: Option<Port>,
}

impl View for Parser {
    type V = ParserModel;

    closed spec fn view(&self) -> ParserModel {
        ParserModel {
            state: self.state,
            hosts: self.hosts@.map_values(|h: Host| h@),
            current_host: self.current_host@,
            current_port: self.current_port,
        }
    }
}

/// The parser before the first event.
pub open spec fn initial() -> ParserModel {
    ParserModel {
        state: ParserState::Ignore,
        hosts: Seq::empty(),
        current_host: empty_host(),
        current_port: None,
    }
}

/// The error for a required attribute that is absent.
pub open spec fn missing(p: ParserModel, element: Element, field: Field) -> ParseError {
    ParseError::MissingAttribute { host: p.hosts.len() as usize, element, field }
}

/// The error for an attribute whose value the schema does not allow.
pub open spec fn invalid(p: ParserModel, element: Element, field: Field) -> ParseError {
    ParseError::InvalidValue { host: p.hosts.len() as usize, element, field }
}

/// The parser moved to another state.
pub open spec fn with_state(p: ParserModel, s: ParserState) -> ParserModel {
    ParserModel { state: s, ..p }
}

/// The parser with another host in progress.
pub open spec fn with_host(p: ParserModel, h: HostModel) -> ParserModel {
    ParserModel { current_host: h, ..p }
}

/// What one attribute of a `service` element does to the service and the
/// host's operating system.
pub open spec fn apply_service_attr(a: Attribute, svc: Service, os: Option<String>) -> (Service, Option<String>) {
    if a.key@ == "name"@ {
        (Service { name: Some(a.value), ..svc }, os)
    } else if a.key@ == "product"@ {
        (Service { product: Some(a.value), ..svc }, os)
    } else if a.key@ == "version"@ {
        (Service { version: Some(a.value), ..svc }, os)
    } else if a.key@ == "extrainfo"@ {
        (Service { extrainfo: Some(a.value), ..svc }, os)
    } else if a.key@ == "ostype"@ {
        (svc, Some(a.value))
    } else {
        (svc, os)
    }
}

/// The attributes of a `service` element applied in document order.
pub open spec fn service_fold(attrs: Seq<Attribute>, svc: Service, os: Option<String>) -> (Service, Option<String>)
    decreases attrs.len(),
{
    if attrs.len() == 0 {
        (svc, os)
    } else {
        let (s2, o2) = apply_service_attr(attrs[0], svc, os);
        service_fold(attrs.drop_first(), s2, o2)
    }
}

/// A service with no attribute read yet.
pub open spec fn blank_service() -> Service {
    Service { name: None, product: None, version: None, extrainfo: None }
}

/// The transition of the parser on one event; events with no transition leave
/// it as it is.
pub open spec fn step(p: ParserModel, ev: XmlEvent) -> Result<ParserModel, ParseError> {
    let h = p.current_host;
    let attrs = ev.attributes@;
    match p.state {
        ParserState::Ignore => if ev.opens("nmaprun"@) {
            Ok(with_state(p, ParserState::WaitingForHost))
        } else {
            Ok(p)
        },
        ParserState::WaitingForHost => if ev.opens("host"@) {
            Ok(ParserModel { state: ParserState::Host, current_host: empty_host(), ..p })
        } else if ev.closes("nmaprun"@) {
            Ok(with_state(p, ParserState::Done))
        } else {
            Ok(p)
        },
        ParserState::Host => if ev.is_leaf("address"@) {
            match find_attr(attrs, "addr"@) {
                None => Err(missing(p, Element::Address, Field::Addr)),
                Some(addr) => match find_attr(attrs, "addrtype"@) {
                    None => Err(missing(p, Element::Address, Field::AddrType)),
                    Some(t) => match AddrType::family_of(t@) {
                        None => Err(invalid(p, Element::Address, Field::AddrType)),
                        Some(family) => Ok(with_host(p, HostModel {
                            addresses: h.addresses.push(IpAddr { address: addr, addr_type: family }),
                            ..h
                        })),
                    },
                },
            }
        } else if ev.opens("hostnames"@) {
            Ok(with_state(p, ParserState::Hostnames))
        } else if ev.opens("ports"@) {
            Ok(with_state(p, ParserState::Ports))
        } else if ev.opens("trace"@) {
            Ok(with_state(p, ParserState::Hops))
        } else if ev.closes("host"@) {
            Ok(ParserModel {
                state: ParserState::WaitingForHost,
                hosts: p.hosts.push(h),
                current_host: empty_host(),
                ..p
            })
        } else {
            Ok(p)
        },
        ParserState::Hostnames => if ev.is_leaf("hostname"@) {
            match find_attr(attrs, "name"@) {
                None => Err(missing(p, Element::Hostname, Field::Name)),
                Some(name) => Ok(with_host(p, HostModel { hostnames: h.hostnames.push(name), ..h })),
            }
        } else if ev.closes("hostnames"@) {
            Ok(with_state(p, ParserState::Host))
        } else {
            Ok(p)
        },
        ParserState::Ports => if ev.opens("port"@) {
            match find_attr(attrs, "protocol"@) {
                None => Err(missing(p, Element::Port, Field::Protocol)),
                Some(protocol) => match find_attr(attrs, "portid"@) {
                    None => Err(missing(p, Element::Port, Field::PortId)),
                    Some(id) => match port_number(id@) {
                        None => Err(invalid(p, Element::Port, Field::PortId)),
                        Some(n) => Ok(ParserModel {
                            state: ParserState::Port,
                            current_port: Some(Port { protocol, port: n, service: None, metadata: Metadata::NoMetadata }),
                            ..p
                        }),
                    },
                },
            }
        } else if ev.closes("ports"@) {
            Ok(with_state(p, ParserState::Host))
        } else {
            Ok(p)
        },
        ParserState::Port => if ev.opens("service"@) {
            let (svc, os) = service_fold(attrs, blank_service(), h.os);
            Ok(ParserModel {
                current_host: HostModel { os, ..h },
                current_port: match p.current_port {
                    Some(port) => Some(Port { service: Some(svc), ..port }),
                    None => None,
                },
                ..p
            })
        } else if ev.closes("port"@) {
            Ok(ParserModel {
                state: ParserState::Ports,
                current_host: match p.current_port {
                    Some(port) => HostModel { ports: h.ports.push(port), ..h },
                    None => h,
                },
                current_port: None,
                ..p
            })
        } else {
            Ok(p)
        },
        ParserState::Hops => if ev.is_leaf("hop"@) {
            match find_attr(attrs, "ipaddr"@) {
                None => Err(missing(p, Element::Hop, Field::IpAddr)),
                Some(ip) => Ok(with_host(p, HostModel { hops: h.hops.push(ip), ..h })),
            }
        } else if ev.closes("trace"@) {
            Ok(with_state(p, ParserState::Host))
        } else {
            Ok(p)
        },
        ParserState::Done => Ok(p),
    }
}

/// The parser after the events in order, or the first malformed record.
pub open spec fn run(evs: Seq<XmlEvent>) -> Result<ParserModel, ParseError>
    decreases evs.len(),
{
    if evs.len() == 0 {
        Ok(initial())
    } else {
        match run(evs.drop_last()) {
            Ok(p) => step(p, evs.last()),
            Err(e) => Err(e),
        }
    }
}

/// The hosts that a report's events describe, in document order, or the first
/// malformed record.
pub open spec fn parse_spec(evs: Seq<XmlEvent>) -> Result<Seq<HostModel>, ParseError> {
    match run(evs) {
        Ok(p) => Ok(p.hosts),
        Err(e) => Err(e),
    }
}

/// Once the run has failed, later events keep the same error.
proof fn lemma_run_stops(evs: Seq<XmlEvent>, k: int)
    requires
        0 <= k <= evs.len(),
        run(evs.take(k)) is Err,
    ensures
        run(evs) == run(evs.take(k)),
    decreases evs.len() - k,
{
    if k < evs.len() {
        assert(evs.take(k + 1).drop_last() =~= evs.take(k));
        lemma_run_stops(evs, k + 1);
    } else {
        assert(evs.take(k) =~= evs);
    }
}

fn is_start(ev: &XmlEvent, name: &str) -> (r: bool)
    ensures
        r == ev.opens(name@),
{
    ev.kind == EventKind::Start && is_text(&ev.name, name)
}

fn is_end(ev: &XmlEvent, name: &str) -> (r: bool)
    ensures
        r == ev.closes(name@),
{
    ev.kind == EventKind::End && is_text(&ev.name, name)
}

fn is_empty(ev: &XmlEvent, name: &str) -> (r: bool)
    ensures
        r == ev.is_leaf(name@),
{
    ev.kind == EventKind::Empty && is_text(&ev.name, name)
}

impl Parser {
    /// A parser that has seen no event.
    pub fn new() -> (r: Parser)
        ensures
            r@ == initial(),
    {
        let r = Parser {
            state: ParserState::Ignore,
            hosts: Vec::new(),
            current_host: Host::new(),
            current_port: None,
        };
        assert(r@.hosts =~= Seq::<HostModel>::empty());
        r
    }

    /// Where the parser stands.
    pub fn state(&self) -> (r: ParserState)
        ensures
            r == self@.state,
    {
        self.state
    }

    fn read_service(&mut self, attrs: &Vec<Attribute>)
        ensures
            ({
                let (svc, os) = service_fold(attrs@, blank_service(), old(self)@.current_host.os);
                final(self)@ == ParserModel {
                    current_host: HostModel { os, ..old(self)@.current_host },
                    current_port: match old(self)@.current_port {
                        Some(port) => Some(Port { service: Some(svc), ..port }),
                        None => None,
                    },
                    ..old(self)@
                }
            }),
    {
        let ghost os0 = self.current_host.os;
        let mut os = self.current_host.os.take();
        let mut svc = Service { name: None, product: None, version: None, extrainfo: None };
        let mut i: usize = 0;
        assert(attrs@.subrange(0, attrs@.len() as int) =~= attrs@);
        while i < attrs.len()
            invariant
                i <= attrs@.len(),
                service_fold(attrs@, blank_service(), os0) == service_fold(
                    attrs@.subrange(i as int, attrs@.len() as int),
                    svc,
                    os,
                ),
            decreases attrs.len() - i,
        {
            let ghost rest = attrs@.subrange(i as int, attrs@.len() as int);
            assert(rest.drop_first() =~= attrs@.subrange(i + 1, attrs@.len() as int));
            let a = &attrs[i];
            if is_text(&a.key, "name") {
                svc.name = Some(a.value.clone());
            } else if is_text(&a.key, "product") {
                svc.product = Some(a.value.clone());
            } else if is_text(&a.key, "version") {
                svc.version = Some(a.value.clone());
            } else if is_text(&a.key, "extrainfo") {
                svc.extrainfo = Some(a.value.clone());
            } else if is_text(&a.key, "ostype") {
                os = Some(a.value.clone());
            }
            i = i + 1;
        }
        assert(attrs@.subrange(attrs@.len() as int, attrs@.len() as int) =~= Seq::<Attribute>::empty());
        self.current_host.os = os;
        let cur = self.current_port.take();
        match cur {
            Some(port) => {
                self.current_port = Some(Port { service: Some(svc), ..port });
            },
            None => {},
        }
    }

    /// Feeds one event to the parser: it follows the transition table, and
    /// fails on a malformed record.
    pub fn process(&mut self, ev: &XmlEvent) -> (r: Result<(), ParseError>)
        ensures
            step(old(self)@, *ev) == (match r {
                Ok(_) => Ok(final(self)@),
                Err(e) => Err::<ParserModel, ParseError>(e),
            }),
            r is Err ==> final(self)@ == old(self)@,
    {
        let attrs = &ev.attributes;
        match self.state {
            ParserState::Ignore => {
                if is_start(ev, "nmaprun") {
                    self.state = ParserState::WaitingForHost;
                }
            },
            ParserState::WaitingForHost => {
                if is_start(ev, "host") {
                    self.current_host = Host::new();
                    self.state = ParserState::Host;
                } else if is_end(ev, "nmaprun") {
                    self.state = ParserState::Done;
                }
            },
            ParserState::Host => {
                if is_empty(ev, "address") {
                    let addr = match attribute(attrs, "addr") {
                        None => { return Err(self.error_missing(Element::Address, Field::Addr)); },
                        Some(a) => a,
                    };
                    let t = match attribute(attrs, "addrtype") {
                        None => { return Err(self.error_missing(Element::Address, Field::AddrType)); },
                        Some(t) => t,
                    };
                    let family = match AddrType::parse(&t) {
                        None => { return Err(self.error_invalid(Element::Address, Field::AddrType)); },
                        Some(f) => f,
                    };
                    self.current_host.addresses.push(IpAddr { address: addr, addr_type: family });
                } else if is_start(ev, "hostnames") {
                    self.state = ParserState::Hostnames;
                } else if is_start(ev, "ports") {
                    self.state = ParserState::Ports;
                } else if is_start(ev, "trace") {
                    self.state = ParserState::Hops;
                } else if is_end(ev, "host") {
                    let mut done = Host::new();
                    std::mem::swap(&mut done, &mut self.current_host);
                    let ghost before = self.hosts@;
                    self.hosts.push(done);
                    assert(self.hosts@.map_values(|h: Host| h@) =~= before.map_values(|h: Host| h@).push(done@));
                    self.state = ParserState::WaitingForHost;
                }
            },
            ParserState::Hostnames => {
                if is_empty(ev, "hostname") {
                    let name = match attribute(attrs, "name") {
                        None => { return Err(self.error_missing(Element::Hostname, Field::Name)); },
                        Some(n) => n,
                    };
                    self.current_host.hostnames.push(name);
                } else if is_end(ev, "hostnames") {
                    self.state = ParserState::Host;
                }
            },
            ParserState::Ports => {
                if is_start(ev, "port") {
                    let protocol = match attribute(attrs, "protocol") {
                        None => { return Err(self.error_missing(Element::Port, Field::Protocol)); },
                        Some(p) => p,
                    };
                    let id = match attribute(attrs, "portid") {
                        None => { return Err(self.error_missing(Element::Port, Field::PortId)); },
                        Some(i) => i,
                    };
                    let n = match parse_port(&id) {
                        None => { return Err(self.error_invalid(Element::Port, Field::PortId)); },
                        Some(n) => n,
                    };
                    self.current_port = Some(Port { protocol, port: n, service: None, metadata: Metadata::NoMetadata });
                    self.state = ParserState::Port;
                } else if is_end(ev, "ports") {
                    self.state = ParserState::Host;
                }
            },
            ParserState::Port => {
                if is_start(ev, "service") {
                    self.read_service(attrs);
                } else if is_end(ev, "port") {
                    let cur = self.current_port.take();
                    match cur {
                        Some(port) => { self.current_host.ports.push(port); },
                        None => {},
                    }
                    self.state = ParserState::Ports;
                }
            },
            ParserState::Hops => {
                if is_empty(ev, "hop") {
                    let ip = match attribute(attrs, "ipaddr") {
                        None => { return Err(self.error_missing(Element::Hop, Field::IpAddr)); },
                        Some(i) => i,
                    };
                    self.current_host.hops.push(ip);
                } else if is_end(ev, "trace") {
                    self.state = ParserState::Host;
                }
            },
            ParserState::Done => {},
        }
        Ok(())
    }

    /// The hosts read so far, in document order.
    pub fn into_hosts(self) -> (r: Vec<Host>)
        ensures
            r@.map_values(|h: Host| h@) == self@.hosts,
    {
        self.hosts
    }

    /// Reads the hosts of a report from its events, in document order, or
    /// returns the first malformed record.
    pub fn parse_events(events: &Vec<XmlEvent>) -> (r: Result<Vec<Host>, ParseError>)
        ensures
            match parse_spec(events@) {
                Ok(hs) => r is Ok && r->Ok_0@.map_values(|h: Host| h@) == hs,
                Err(e) => r == Err::<Vec<Host>, ParseError>(e),
            },
    {
        let mut parser = Parser::new();
        let mut i: usize = 0;
        assert(events@.take(0) =~= Seq::<XmlEvent>::empty());
        while i < events.len()
            invariant
                i <= events@.len(),
                run(events@.take(i as int)) == Ok::<ParserModel, ParseError>(parser@),
            decreases events.len() - i,
        {
            assert(events@.take(i + 1).drop_last() =~= events@.take(i as int));
            assert(events@.take(i + 1).last() == events@[i as int]);
            match parser.process(&events[i]) {
                Ok(_) => {},
                Err(e) => {
                    proof { lemma_run_stops(events@, i as int + 1); }
                    return Err(e);
                },
            }
            i = i + 1;
        }
        assert(events@.take(events@.len() as int) =~= events@);
        Ok(parser.into_hosts())
    }

    fn error_missing(&self, element: Element, field: Field) -> (r: ParseError)
        ensures
            r == missing(self@, element, field),
    {
        ParseError::MissingAttribute { host: self.hosts.len(), element, field }
    }

    fn error_invalid(&self, element: Element, field: Field) -> (r: ParseError)
        ensures
            r == invalid(self@, element, field),
    {
        ParseError::InvalidValue { host: self.hosts.len(), element, field }
    }
}

} // verus!
