use vstd::prelude::*;
use vstd::string::*;
use crate::parser::{AddrType, Host, HostModel, IpAddr, Port};
use crate::text::{decimal, decimal_text, push_text};

verus! {

/// One line of a host's box.
#[derive(Debug, Clone)]
pub enum Item {
    FriendlyName(String),
    IPv4(String),
    IPv6(String),
    Port(u16, String, String),
    OS(String),
    MAC(String),
}

/// An item as a mathematical value.
pub enum ItemModel {
    FriendlyName(Seq<char>),
    IPv4(Seq<char>),
    IPv6(Seq<char>),
    Port(u16, Seq<char>, Seq<char>),
    OS(Seq<char>),
    MAC(Seq<char>),
}

impl View for Item {
    type V = ItemModel;

    open spec fn view(&self) -> ItemModel {
        match self {
            Item::FriendlyName(n) => ItemModel::FriendlyName(n@),
            Item::IPv4(a) => ItemModel::IPv4(a@),
            Item::IPv6(a) => ItemModel::IPv6(a@),
            Item::Port(n, p, s) => ItemModel::Port(*n, p@, s@),
            Item::OS(o) => ItemModel::OS(o@),
            Item::MAC(m) => ItemModel::MAC(m@),
        }
    }
}

/// The text of an item in its box.
pub open spec fn item_text(i: ItemModel) -> Seq<char> {
    match i {
        ItemModel::FriendlyName(n) => n,
        ItemModel::IPv4(a) => "IPv4: "@ + a,
        ItemModel::IPv6(a) => "IPv6: "@ + a,
        ItemModel::Port(n, p, s) => decimal(n as nat) + "/"@ + p + " "@ + s,
        ItemModel::OS(o) => "OS: "@ + o,
        ItemModel::MAC(m) => "MAC: "@ + m,
    }
}

/// The item of an address, typed by its family.
pub open spec fn address_item(a: IpAddr) -> ItemModel {
    match a.addr_type {
        AddrType::IPv4 => ItemModel::IPv4(a.address@),
        AddrType::IPv6 => ItemModel::IPv6(a.address@),
        AddrType::MAC => ItemModel::MAC(a.address@),
    }
}

/// The name of the service behind a port, or `unknown`.
pub open spec fn service_name(p: Port) -> Seq<char> {
    match p.service {
        Some(s) => match s.name {
            Some(n) => n@,
            None => "unknown"@,
        },
        None => "unknown"@,
    }
}

/// The item of a port: its number, protocol and service name.
pub open spec fn port_item(p: Port) -> ItemModel {
    ItemModel::Port(p.port, p.protocol@, service_name(p))
}

/// The items of a host: its names, its addresses, its ports, then its
/// operating system if known.
pub open spec fn items_of(h: HostModel) -> Seq<ItemModel> {
    h.hostnames.map_values(|n: String| ItemModel::FriendlyName(n@))
        + h.addresses.map_values(|a: IpAddr| address_item(a))
        + h.ports.map_values(|p: Port| port_item(p))
        + match h.os {
            Some(o) => seq![ItemModel::OS(o@)],
            None => Seq::empty(),
        }
}

impl Item {
    /// The text of the item in its box.
    pub fn value(&self) -> (r: String)
        ensures
            r@ == item_text(self@),
    {
        match self {
            Item::FriendlyName(name) => name.clone(),
            Item::IPv4(ip) => {
                let mut s = "IPv4: ".to_owned();
                push_text(&mut s, ip.as_str());
                s
            },
            Item::IPv6(ip) => {
                let mut s = "IPv6: ".to_owned();
                push_text(&mut s, ip.as_str());
                s
            },
            Item::Port(port, protocol, application) => {
                let mut s = decimal_text(*port as u64);
                push_text(&mut s, "/");
                push_text(&mut s, protocol.as_str());
                push_text(&mut s, " ");
                push_text(&mut s, application.as_str());
                s
            },
            Item::OS(name) => {
                let mut s = "OS: ".to_owned();
                push_text(&mut s, name.as_str());
                s
            },
            Item::MAC(mac) => {
                let mut s = "MAC: ".to_owned();
                push_text(&mut s, mac.as_str());
                s
            },
        }
    }
}

/// The items shown in one host's box, top to bottom.
#[derive(Debug, Clone)]
pub struct Server {
    pub items: Vec<Item>,
}

impl View for Server {
    type V = Seq<ItemModel>;

    open spec fn view(&self) -> Seq<ItemModel> {
        self.items@.map_values(|i: Item| i@)
    }
}

impl Server {
    fn new() -> (r: Server)
        ensures
            r@ == Seq::<ItemModel>::empty(),
    {
        let r = Server { items: Vec::new() };
        assert(r@ =~= Seq::<ItemModel>::empty());
        r
    }

    fn push(&mut self, item: Item)
        ensures
            final(self)@ == old(self)@.push(item@),
    {
        self.items.push(item);
        assert(self@ =~= old(self)@.push(item@));
    }

    /// Projects a host onto the items of its box.
    pub fn into_items(host: Host) -> (r: Server)
        ensures
            r@ == items_of(host@),
    {
        Server::of_host(&host)
    }

    /// Projects a host onto the items of its box, leaving the host as it is.
    pub fn of_host(host: &Host) -> (r: Server)
        ensures
            r@ == items_of(host@),
    {
        let mut server = Server::new();
        let ghost names = host@.hostnames.map_values(|n: String| ItemModel::FriendlyName(n@));
        let ghost addrs = host@.addresses.map_values(|a: IpAddr| address_item(a));
        let ghost ports = host@.ports.map_values(|p: Port| port_item(p));
        let mut i: usize = 0;
        while i < host.hostnames.len()
            invariant
                i <= host@.hostnames.len(),
                server@ == names.take(i as int),
                names == host@.hostnames.map_values(|n: String| ItemModel::FriendlyName(n@)),
                addrs == host@.addresses.map_values(|a: IpAddr| address_item(a)),
                ports == host@.ports.map_values(|p: Port| port_item(p)),
            decreases host.hostnames.len() - i,
        {
            server.push(Item::FriendlyName(host.hostnames[i].clone()));
            assert(server@ =~= names.take(i + 1));
            i = i + 1;
        }
        assert(names.take(i as int) =~= names);
        let mut i: usize = 0;
        while i < host.addresses.len()
            invariant
                i <= host@.addresses.len(),
                server@ == names + addrs.take(i as int),
                names == host@.hostnames.map_values(|n: String| ItemModel::FriendlyName(n@)),
                addrs == host@.addresses.map_values(|a: IpAddr| address_item(a)),
                ports == host@.ports.map_values(|p: Port| port_item(p)),
            decreases host.addresses.len() - i,
        {
            let a = &host.addresses[i];
            let item = match a.addr_type {
                AddrType::IPv4 => Item::IPv4(a.address.clone()),
                AddrType::IPv6 => Item::IPv6(a.address.clone()),
                AddrType::MAC => Item::MAC(a.address.clone()),
            };
            server.push(item);
            assert(server@ =~= names + addrs.take(i + 1));
            i = i + 1;
        }
        assert(addrs.take(i as int) =~= addrs);
        let mut i: usize = 0;
        while i < host.ports.len()
            invariant
                i <= host@.ports.len(),
                server@ == names + addrs + ports.take(i as int),
                names == host@.hostnames.map_values(|n: String| ItemModel::FriendlyName(n@)),
                addrs == host@.addresses.map_values(|a: IpAddr| address_item(a)),
                ports == host@.ports.map_values(|p: Port| port_item(p)),
            decreases host.ports.len() - i,
        {
            let p = &host.ports[i];
            let name = match &p.service {
                Some(s) => match &s.name {
                    Some(n) => n.clone(),
                    None => "unknown".to_owned(),
                },
                None => "unknown".to_owned(),
            };
            server.push(Item::Port(p.port, p.protocol.clone(), name));
            assert(server@ =~= names + addrs + ports.take(i + 1));
            i = i + 1;
        }
        assert(ports.take(i as int) =~= ports);
        match &host.os {
            Some(o) => {
                server.push(Item::OS(o.clone()));
            },
            None => {},
        }
        assert(server@ =~= items_of(host@));
        server
    }
}

} // verus!
