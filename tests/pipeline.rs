use nmap_drawio::detail::Tables;
use nmap_drawio::diagram::{render, LayoutError};
use nmap_drawio::events::{attribute, Attribute, EventKind, XmlEvent};
use nmap_drawio::parser::{AddrType, Element, Field, Host, IpAddr, Metadata, ParseError, Parser, Port, Service};
use nmap_drawio::reader::{parse_document, read_events, ReportError};
use nmap_drawio::renderer::Drawio;
use nmap_drawio::server::{Item, Server};
use nmap_drawio::text::{decimal_text, parse_port};
use nmap_drawio::topology::group;

const MINIMAL: &str = "<?xml version=\"1.0\"?>\n<nmaprun scanner=\"nmap\">\n<host><status state=\"up\"/>\n<address addr=\"10.0.0.1\" addrtype=\"ipv4\"/>\n<address addr=\"AA:BB:CC:DD:EE:FF\" addrtype=\"mac\"/>\n<hostnames><hostname name=\"router\" type=\"PTR\"/></hostnames>\n<ports><port protocol=\"tcp\" portid=\"22\"><state state=\"open\"/><service name=\"ssh\" product=\"OpenSSH\" version=\"8.2\" ostype=\"Linux\"></service></port></ports>\n<trace><hop ttl=\"1\" ipaddr=\"10.0.0.254\"/><hop ttl=\"2\" ipaddr=\"10.0.0.1\"/></trace>\n</host>\n</nmaprun>\n";

fn addr(a: &str, t: AddrType) -> IpAddr {
    IpAddr { address: a.to_string(), addr_type: t }
}

fn ssh(version: &str) -> Service {
    Service {
        name: Some("ssh".to_string()),
        product: Some("OpenSSH".to_string()),
        version: Some(version.to_string()),
        extrainfo: Some("Ubuntu Linux; protocol 2.0".to_string()),
    }
}

fn port(n: u16, service: Option<Service>) -> Port {
    Port { protocol: "tcp".to_string(), port: n, service, metadata: Metadata::NoMetadata }
}

fn host(addresses: Vec<IpAddr>, ports: Vec<Port>, hops: usize) -> Host {
    Host {
        addresses,
        hostnames: Vec::new(),
        ports,
        os: None,
        hops: (0..hops).map(|i| format!("10.9.9.{}", i)).collect(),
    }
}

fn start(name: &str, attrs: &[(&str, &str)]) -> XmlEvent {
    XmlEvent {
        kind: EventKind::Start,
        name: name.to_string(),
        attributes: attrs.iter().map(|(k, v)| Attribute { key: k.to_string(), value: v.to_string() }).collect(),
    }
}

fn leaf(name: &str, attrs: &[(&str, &str)]) -> XmlEvent {
    XmlEvent { kind: EventKind::Empty, ..start(name, attrs) }
}

fn end(name: &str) -> XmlEvent {
    XmlEvent { kind: EventKind::End, name: name.to_string(), attributes: Vec::new() }
}

#[test]
fn minimal_document_parses_to_one_host() {
    let hosts = parse_document(MINIMAL.as_bytes()).unwrap();
    assert_eq!(hosts.len(), 1);
    let h = &hosts[0];
    assert_eq!(h.addresses.len(), 2);
    assert_eq!(h.hostnames.len(), 1);
    assert_eq!(h.ports.len(), 1);
    assert_eq!(h.hops.len(), 2);
    assert!(matches!(h.addresses[0].addr_type, AddrType::IPv4));
    assert!(matches!(h.addresses[1].addr_type, AddrType::MAC));
    assert_eq!(h.hostnames[0], "router");
    assert_eq!(h.ports[0].port, 22);
    assert_eq!(h.ports[0].protocol, "tcp");
    let s = h.ports[0].service.as_ref().unwrap();
    assert_eq!(s.name.as_deref(), Some("ssh"));
    assert_eq!(s.product.as_deref(), Some("OpenSSH"));
    assert_eq!(s.version.as_deref(), Some("8.2"));
    assert_eq!(s.extrainfo, None);
    assert_eq!(h.os.as_deref(), Some("Linux"));
    assert_eq!(h.hops, vec!["10.0.0.254".to_string(), "10.0.0.1".to_string()]);
}

#[test]
fn missing_addrtype_is_a_malformed_record() {
    let doc = "<nmaprun><host><address addr=\"10.0.0.1\"/></host></nmaprun>";
    let r = parse_document(doc.as_bytes());
    assert_eq!(
        r.err(),
        Some(ReportError::Malformed(ParseError::MissingAttribute {
            host: 0,
            element: Element::Address,
            field: Field::AddrType,
        }))
    );
}

#[test]
fn unknown_addrtype_is_invalid() {
    let evs = vec![start("nmaprun", &[]), start("host", &[]), leaf("address", &[("addr", "x"), ("addrtype", "IPV4")])];
    assert_eq!(
        Parser::parse_events(&evs).err(),
        Some(ParseError::InvalidValue { host: 0, element: Element::Address, field: Field::AddrType })
    );
}

#[test]
fn bad_portid_is_invalid_and_names_the_host() {
    let evs = vec![
        start("nmaprun", &[]),
        start("host", &[]),
        end("host"),
        start("host", &[]),
        start("ports", &[]),
        start("port", &[("protocol", "tcp"), ("portid", "65536")]),
    ];
    assert_eq!(
        Parser::parse_events(&evs).err(),
        Some(ParseError::InvalidValue { host: 1, element: Element::Port, field: Field::PortId })
    );
}

#[test]
fn missing_hop_address_is_reported() {
    let evs = vec![start("nmaprun", &[]), start("host", &[]), start("trace", &[]), leaf("hop", &[("ttl", "1")])];
    assert_eq!(
        Parser::parse_events(&evs).err(),
        Some(ParseError::MissingAttribute { host: 0, element: Element::Hop, field: Field::IpAddr })
    );
}

#[test]
fn events_outside_the_schema_are_ignored() {
    let evs = vec![
        leaf("address", &[("addr", "1.1.1.1"), ("addrtype", "ipv4")]),
        start("nmaprun", &[]),
        start("scaninfo", &[]),
        start("host", &[]),
        leaf("status", &[]),
        leaf("hostname", &[("name", "ignored")]),
        leaf("address", &[("addr", "1.1.1.1"), ("addrtype", "ipv4")]),
        end("host"),
        end("nmaprun"),
        start("host", &[]),
    ];
    let hosts = Parser::parse_events(&evs).unwrap();
    assert_eq!(hosts.len(), 1);
    assert_eq!(hosts[0].addresses.len(), 1);
    assert!(hosts[0].hostnames.is_empty());
}

#[test]
fn first_attribute_with_the_key_wins() {
    let attrs = vec![
        Attribute { key: "name".to_string(), value: "a".to_string() },
        Attribute { key: "Name".to_string(), value: "b".to_string() },
        Attribute { key: "name".to_string(), value: "c".to_string() },
    ];
    assert_eq!(attribute(&attrs, "name"), Some("a".to_string()));
    assert_eq!(attribute(&attrs, "Name"), Some("b".to_string()));
    assert_eq!(attribute(&attrs, "NAME"), None);
}

#[test]
fn port_numbers_are_sixteen_bit_decimals() {
    assert_eq!(parse_port(&"22".to_string()), Some(22));
    assert_eq!(parse_port(&"0".to_string()), Some(0));
    assert_eq!(parse_port(&"65535".to_string()), Some(65535));
    assert_eq!(parse_port(&"+80".to_string()), Some(80));
    assert_eq!(parse_port(&"65536".to_string()), None);
    assert_eq!(parse_port(&"".to_string()), None);
    assert_eq!(parse_port(&"+".to_string()), None);
    assert_eq!(parse_port(&"-1".to_string()), None);
    assert_eq!(parse_port(&"8o".to_string()), None);
    assert_eq!(parse_port(&"99999999999999999999".to_string()), None);
}

#[test]
fn decimal_text_writes_numbers() {
    assert_eq!(decimal_text(0), "0");
    assert_eq!(decimal_text(7), "7");
    assert_eq!(decimal_text(1290), "1290");
    assert_eq!(decimal_text(u64::MAX), "18446744073709551615");
}

#[test]
fn identical_fingerprints_merge_and_versions_split() {
    let mut tables = Tables::new();
    tables.add_host(&host(vec![addr("10.0.0.1", AddrType::IPv4)], vec![port(22, Some(ssh("8.2")))], 0));
    tables.add_host(&host(vec![addr("10.0.0.2", AddrType::IPv4)], vec![port(22, Some(ssh("8.2")))], 0));
    assert_eq!(tables.services.len(), 1);
    assert_eq!(tables.services[0].hosts.len(), 2);
    assert_eq!(tables.services[0].hosts[0].ip, "10.0.0.1");
    assert_eq!(tables.services[0].hosts[1].ip, "10.0.0.2");
    assert_eq!(tables.services[0].hosts[1].port, 22);
    tables.add_host(&host(vec![addr("10.0.0.3", AddrType::IPv4)], vec![port(22, Some(ssh("9.0")))], 0));
    assert_eq!(tables.services.len(), 2);
    assert_eq!(tables.services[1].version.as_deref(), Some("9.0"));
    assert_eq!(tables.services[1].hosts.len(), 1);
}

#[test]
fn absent_and_present_version_are_different_tables() {
    let mut tables = Tables::new();
    let mut bare = ssh("8.2");
    bare.version = None;
    tables.add_host(&host(vec![addr("10.0.0.1", AddrType::IPv4)], vec![port(22, Some(bare.clone())), port(2222, Some(ssh("8.2"))), port(23, Some(bare))], 0));
    assert_eq!(tables.services.len(), 2);
    assert_eq!(tables.services[0].version, None);
    assert_eq!(tables.services[0].hosts.len(), 2);
    assert_eq!(tables.services[0].hosts[1].port, 23);
}

#[test]
fn mac_only_host_adds_no_binding() {
    let mut tables = Tables::new();
    tables.add_host(&host(vec![addr("AA:BB:CC:DD:EE:FF", AddrType::MAC)], vec![port(22, Some(ssh("8.2"))), port(80, None)], 0));
    assert!(tables.services.iter().all(|s| s.hosts.is_empty()));
    tables.add_host(&host(vec![addr("AA:BB:CC:DD:EE:00", AddrType::MAC), addr("fe80::1", AddrType::IPv6)], vec![port(22, Some(ssh("8.2")))], 0));
    assert_eq!(tables.services.len(), 1);
    assert_eq!(tables.services[0].hosts.len(), 1);
    assert_eq!(tables.services[0].hosts[0].ip, "fe80::1");
}

#[test]
fn ports_without_service_are_ignored() {
    let mut tables = Tables::new();
    tables.add_host(&host(vec![addr("10.0.0.1", AddrType::IPv4)], vec![port(80, None)], 0));
    assert!(tables.services.is_empty());
}

#[test]
fn grouping_orders_by_distance() {
    let hosts = vec![
        host(vec![addr("a", AddrType::IPv4)], vec![], 2),
        host(vec![addr("b", AddrType::IPv4)], vec![], 0),
        host(vec![addr("c", AddrType::IPv4)], vec![], 1),
        host(vec![addr("d", AddrType::IPv4)], vec![], 0),
    ];
    let buckets = group(&hosts);
    let distances: Vec<usize> = buckets.iter().map(|b| b.distance).collect();
    assert_eq!(distances, vec![0, 1, 2]);
    assert_eq!(buckets[0].members, vec![1, 3]);
    assert_eq!(buckets[1].members, vec![2]);
    assert_eq!(buckets[2].members, vec![0]);
    assert!(group(&Vec::new()).is_empty());
}

#[test]
fn items_follow_the_rendering_order() {
    let mut h = host(vec![addr("10.0.0.1", AddrType::IPv4), addr("fe80::1", AddrType::IPv6), addr("AA:BB", AddrType::MAC)], vec![port(22, Some(ssh("8.2"))), port(80, None)], 0);
    h.hostnames.push("web".to_string());
    h.ports.push(port(81, Some(Service { name: None, product: None, version: None, extrainfo: None })));
    h.os = Some("Linux".to_string());
    let texts: Vec<String> = Server::into_items(h).items.iter().map(|i| i.value()).collect();
    assert_eq!(
        texts,
        vec!["web", "IPv4: 10.0.0.1", "IPv6: fe80::1", "MAC: AA:BB", "22/tcp ssh", "80/tcp unknown", "81/tcp unknown", "OS: Linux"]
    );
}

#[test]
fn item_text_of_a_port() {
    assert_eq!(Item::Port(443, "tcp".to_string(), "https".to_string()).value(), "443/tcp https");
    assert_eq!(Item::FriendlyName("box".to_string()).value(), "box");
}

fn servers(n: usize) -> Vec<Server> {
    (0..n).map(|i| Server { items: vec![Item::FriendlyName(format!("h{}", i))] }).collect()
}

#[test]
fn nine_hosts_take_two_grid_rows() {
    let mut canvas = Drawio::new();
    let next = canvas.network(servers(9), &[10, 10], &"1".to_string(), "network-0".to_string());
    assert_eq!(next, 10 + 20 + (9 / 8 + 1) * 10 * 20);
    let out = canvas.serialize();
    assert!(out.contains("<mxCell id=\"network-network-0-bound\" value=\"\" style=\"whiteSpace=wrap;html=1;aspect=fixed;fontSize=12;\" parent=\"1\" vertex=\"1\"><mxGeometry x=\"10\" y=\"10\" width=\"1290\" height=\"400\" as=\"geometry\"/></mxCell>"));
    assert!(out.contains("<mxCell id=\"network-network-0-8-0\" value=\"\" style=\"group;border=2px;\" parent=\"1\" vertex=\"1\" connectable=\"0\"><mxGeometry x=\"20\" y=\"220\" width=\"150\" height=\"20\" as=\"geometry\"/></mxCell>"));
    assert!(out.contains("<mxCell id=\"network-network-0-7-0\" value=\"\" style=\"group;border=2px;\" parent=\"1\" vertex=\"1\" connectable=\"0\"><mxGeometry x=\"1140\" y=\"20\""));
    assert!(out.contains("<mxCell id=\"network-network-0-8-1\" value=\"h8\" style=\"whiteSpace=wrap;html=1;aspect=fixed;fontSize=12;\" parent=\"network-network-0-8-0\" vertex=\"1\"><mxGeometry x=\"0\" y=\"0\" width=\"150\" height=\"20\" as=\"geometry\"/></mxCell>"));
}

#[test]
fn empty_cluster_still_has_one_row() {
    let mut canvas = Drawio::new();
    assert_eq!(canvas.network(Vec::new(), &[0, 100], &"1".to_string(), "x".to_string()), 320);
}

#[test]
fn host_box_stacks_items() {
    let mut canvas = Drawio::new();
    canvas.server(
        Server { items: vec![Item::IPv4("10.0.0.1".to_string()), Item::OS("Linux".to_string())] },
        &[5, 6],
        &"1".to_string(),
        "h".to_string(),
    );
    let out = canvas.serialize();
    assert!(out.contains("<mxCell id=\"h-0\" value=\"\" style=\"group;border=2px;\" parent=\"1\" vertex=\"1\" connectable=\"0\"><mxGeometry x=\"5\" y=\"6\" width=\"150\" height=\"40\" as=\"geometry\"/></mxCell><mxCell id=\"h-1\" value=\"IPv4: 10.0.0.1\""));
    assert!(out.contains("<mxCell id=\"h-2\" value=\"OS: Linux\" style=\"whiteSpace=wrap;html=1;aspect=fixed;fontSize=12;\" parent=\"h-0\" vertex=\"1\"><mxGeometry x=\"0\" y=\"20\" width=\"150\" height=\"20\" as=\"geometry\"/></mxCell>"));
}

#[test]
fn service_table_layout() {
    let mut tables = Tables::new();
    tables.add_host(&host(vec![addr("10.0.0.1", AddrType::IPv4), addr("10.0.0.2", AddrType::IPv4)], vec![port(22, Some(ssh("8.2")))], 0));
    let mut bare = ssh("x");
    bare.version = None;
    tables.add_host(&host(vec![addr("10.0.0.3", AddrType::IPv4)], vec![port(2222, Some(bare))], 0));
    let mut canvas = Drawio::new();
    canvas.service(tables.services[0].clone(), &[1000, 20], &"1".to_string(), "table1".to_string());
    canvas.service(tables.services[1].clone(), &[1180, 20], &"1".to_string(), "table2".to_string());
    let out = canvas.serialize();
    assert!(out.contains("<mxCell id=\"table1-0\" value=\"\" style=\"group;border=2px;\" parent=\"1\" vertex=\"1\" connectable=\"0\"><mxGeometry x=\"1000\" y=\"20\" width=\"150\" height=\"100\" as=\"geometry\"/></mxCell>"));
    assert!(out.contains("<mxCell id=\"header-table1-0\" value=\"ssh\n(OpenSSH 8.2)\""));
    assert!(out.contains("<mxCell id=\"table1-2a\" value=\"10.0.0.2\" style=\"whiteSpace=wrap;html=1;aspect=fixed;fontSize=12;\" parent=\"table1-0\" vertex=\"1\"><mxGeometry x=\"0\" y=\"80\" width=\"100\" height=\"20\" as=\"geometry\"/></mxCell>"));
    assert!(out.contains("<mxCell id=\"table1-2b\" value=\"22\" style=\"whiteSpace=wrap;html=1;aspect=fixed;fontSize=12;\" parent=\"table1-0\" vertex=\"1\"><mxGeometry x=\"100\" y=\"80\" width=\"50\" height=\"20\" as=\"geometry\"/></mxCell>"));
    assert!(out.contains("value=\"ssh\n(OpenSSH unknown)\""));
}

#[test]
fn serialize_frames_the_records() {
    let mut canvas = Drawio::new();
    let out = canvas.serialize();
    assert!(out.starts_with("<mxGraphModel dx=\"3924\""));
    assert!(out.ends_with("<mxCell id=\"1\" parent=\"0\"/></root></mxGraphModel>"));
}

fn pipeline(doc: &[u8]) -> String {
    render(&parse_document(doc).unwrap()).unwrap()
}

#[test]
fn same_input_gives_same_output() {
    let a = pipeline(MINIMAL.as_bytes());
    let b = pipeline(MINIMAL.as_bytes());
    assert_eq!(a, b);
    assert!(a.contains("value=\"22/tcp ssh\""));
    assert!(a.contains("value=\"ssh\n(OpenSSH 8.2)\""));
}

#[test]
fn broken_markup_is_rejected() {
    assert_eq!(read_events(b"<nmaprun><host></nmaprun>").err(), Some(ReportError::InvalidMarkup));
    assert_eq!(read_events(b"<a x=\"1\" x=\"2\"/>").err(), Some(ReportError::InvalidMarkup));
    assert_eq!(read_events(b"").unwrap().len(), 0);
}

#[test]
fn render_stacks_clusters_and_places_tables() {
    let hosts = vec![
        host(vec![addr("10.0.0.5", AddrType::IPv4)], vec![port(22, Some(ssh("8.2")))], 1),
        host(vec![addr("10.0.0.1", AddrType::IPv4)], vec![port(22, Some(ssh("8.2")))], 0),
        host(vec![addr("10.0.0.2", AddrType::IPv4)], vec![port(80, None)], 0),
    ];
    let out = render(&hosts).unwrap();
    assert!(out.starts_with("<mxGraphModel dx=\"3924\""));
    assert!(out.ends_with("</root></mxGraphModel>"));
    assert!(out.contains("<mxCell id=\"network-network-0-bound\" value=\"\" style=\"whiteSpace=wrap;html=1;aspect=fixed;fontSize=12;\" parent=\"1\" vertex=\"1\"><mxGeometry x=\"10\" y=\"10\" width=\"1290\" height=\"200\" as=\"geometry\"/></mxCell>"));
    assert!(out.contains("<mxCell id=\"network-network-1-bound\" value=\"\" style=\"whiteSpace=wrap;html=1;aspect=fixed;fontSize=12;\" parent=\"1\" vertex=\"1\"><mxGeometry x=\"10\" y=\"240\" width=\"1290\" height=\"200\" as=\"geometry\"/></mxCell>"));
    assert!(out.contains("<mxCell id=\"network-network-0-1-1\" value=\"IPv4: 10.0.0.2\""));
    assert!(out.contains("<mxCell id=\"table3-0\" value=\"\" style=\"group;border=2px;\" parent=\"1\" vertex=\"1\" connectable=\"0\"><mxGeometry x=\"1540\" y=\"20\" width=\"150\" height=\"100\" as=\"geometry\"/></mxCell>"));
    assert!(out.contains("<mxCell id=\"table3-1a\" value=\"10.0.0.5\""));
    assert!(out.contains("<mxCell id=\"table3-2a\" value=\"10.0.0.1\""));
    assert!(out.find("network-network-0-bound").unwrap() < out.find("network-network-1-bound").unwrap());
}

#[test]
fn render_rejects_a_service_without_product() {
    let mut s = ssh("8.2");
    s.product = None;
    let hosts = vec![host(vec![addr("10.0.0.1", AddrType::IPv4)], vec![port(22, Some(s))], 0)];
    assert_eq!(render(&hosts).err(), Some(LayoutError::UnnamedService));
}

#[test]
fn render_of_no_hosts_is_the_frame() {
    let out = render(&Vec::new()).unwrap();
    assert!(out.ends_with("<mxCell id=\"1\" parent=\"0\"/></root></mxGraphModel>"));
}
