use vstd::prelude::*;
use vstd::string::*;
use crate::detail;
use crate::detail::{Hostservice, ServiceModel};
use crate::server;
use crate::server::{item_text, ItemModel};
use crate::text::{decimal, decimal_text, push_text};

verus! {

/// Height of one row of a box.
pub const SERVER_ENTRY_HEIGHT: u64 = 20;
/// Width of a host's box.
pub const SERVER_ENTRY_WIDTH: u64 = 150;
/// Width of the address column of a service table.
pub const IP_ENTRY_WIDTH: u64 = 100;
/// Width of the port column of a service table.
pub const PORT_ENTRY_WIDTH: u64 = 50;
/// Gap around and between host boxes.
pub const SERVER_PADDING: u64 = 10;
/// Number of host boxes in one row of a network cluster.
pub const NETWORK_GRID_X: u64 = 8;
/// Rows of height reserved for each row of host boxes.
pub const EXPECTED_SERVER_HEIGHT: u64 = 10;

/// The opening of a diagram document.
pub const HEADER: &'static str = "<mxGraphModel dx=\"3924\" dy=\"2527\" grid=\"1\" gridSize=\"10\" guides=\"1\" tooltips=\"1\" connect=\"1\" arrows=\"1\" fold=\"1\" page=\"1\" pageScale=\"1\" pageWidth=\"1169\" pageHeight=\"827\" math=\"0\" shadow=\"0\"><root><mxCell id=\"0\"/><mxCell id=\"1\" parent=\"0\"/>";
/// The closing of a diagram document.
pub const FOOTER: &'static str = "</root></mxGraphModel>";

/// The geometry of a rectangle.
pub open spec fn geometry_text(x: nat, y: nat, w: nat, h: nat) -> Seq<char> {
    "<mxGeometry x=\""@ + decimal(x) + "\" y=\""@ + decimal(y) + "\" width=\""@ + decimal(w)
        + "\" height=\""@ + decimal(h) + "\" as=\"geometry\"/>"@
}

/// A group box: no label, children refer to it by id.
pub open spec fn group_text(id: Seq<char>, g: Seq<char>, parent: Seq<char>) -> Seq<char> {
    "<mxCell id=\""@ + id + "\" value=\"\" style=\"group;border=2px;\" parent=\""@ + parent
        + "\" vertex=\"1\" connectable=\"0\">"@ + g + "</mxCell>"@
}

/// A labelled rectangle.
pub open spec fn cell_text(id: Seq<char>, g: Seq<char>, parent: Seq<char>, value: Seq<char>) -> Seq<char> {
    "<mxCell id=\""@ + id + "\" value=\""@ + value
        + "\" style=\"whiteSpace=wrap;html=1;aspect=fixed;fontSize=12;\" parent=\""@ + parent
        + "\" vertex=\"1\">"@ + g + "</mxCell>"@
}

/// The records of one host's box: a group at the location, as high as one
/// row per item, then one row per item, top to bottom.
pub open spec fn server_cells(items: Seq<ItemModel>, x: nat, y: nat, parent: Seq<char>, id: Seq<char>) -> Seq<Seq<char>> {
    seq![group_text(id + "-0"@, geometry_text(x, y, 150, 20 * items.len()), parent)]
        + Seq::new(items.len(), |k: int| cell_text(
            id + "-"@ + decimal((k + 1) as nat),
            geometry_text(0, (20 * k) as nat, 150, 20),
            id + "-0"@,
            item_text(items[k]),
        ))
}

/// The column of a cluster's grid that the host at `index` stands in.
pub open spec fn grid_column(index: nat) -> nat {
    index % 8
}

/// The row of a cluster's grid that the host at `index` stands in.
pub open spec fn grid_row(index: nat) -> nat {
    index / 8
}

/// Height of the bounding box of a cluster of `n` hosts.
pub open spec fn network_height(n: nat) -> nat {
    (n / 8 + 1) * 10 * 20
}

/// The bounding rectangle of a cluster, then each host's box in grid order.
pub open spec fn network_cells(servers: Seq<Seq<ItemModel>>, x: nat, y: nat, parent: Seq<char>, id: Seq<char>, n: int) -> Seq<Seq<char>>
    decreases n,
{
    if n <= 0 {
        seq![cell_text(
            "network-"@ + id + "-bound"@,
            geometry_text(x, y, 8 * (150 + 10) + 10, network_height(servers.len())),
            parent,
            Seq::empty(),
        )]
    } else {
        let k = (n - 1) as nat;
        network_cells(servers, x, y, parent, id, n - 1) + server_cells(
            servers[n - 1],
            x + 10 + grid_column(k) * 160,
            y + 10 + grid_row(k) * 200,
            parent,
            "network-"@ + id + "-"@ + decimal(k),
        )
    }
}

/// The label of a service table's header.
pub open spec fn header_text(s: ServiceModel) -> Seq<char> {
    s.service@ + "\n("@ + s.product@ + " "@ + match s.version {
        Some(v) => v@,
        None => "unknown"@,
    } + ")"@
}

/// The two cells of each binding, from the first to the `n`th.
pub open spec fn binding_cells(hosts: Seq<Hostservice>, id: Seq<char>, n: int) -> Seq<Seq<char>>
    decreases n,
{
    if n <= 0 {
        Seq::empty()
    } else {
        let i = n as nat;
        let y = 60 + 20 * (n - 1);
        binding_cells(hosts, id, n - 1) + seq![
            cell_text(id + "-"@ + decimal(i) + "a"@, geometry_text(0, y as nat, 100, 20), id + "-0"@, hosts[n - 1].ip@),
            cell_text(id + "-"@ + decimal(i) + "b"@, geometry_text(100, y as nat, 50, 20), id + "-0"@, decimal(hosts[n - 1].port as nat)),
        ]
    }
}

/// The records of a service table: its group, a three-row header, then one
/// row of two cells per binding.
pub open spec fn service_cells(s: ServiceModel, x: nat, y: nat, parent: Seq<char>, id: Seq<char>) -> Seq<Seq<char>> {
    seq![
        group_text(id + "-0"@, geometry_text(x, y, 150, 20 * (s.hosts.len() + 3)), parent),
        cell_text("header-"@ + id + "-0"@, geometry_text(0, 0, 150, 60), id + "-0"@, header_text(s)),
    ] + binding_cells(s.hosts, id, s.hosts.len() as int)
}

/// The records joined in order.
pub open spec fn concat(entries: Seq<Seq<char>>) -> Seq<char>
    decreases entries.len(),
{
    if entries.len() == 0 {
        Seq::empty()
    } else {
        concat(entries.drop_last()) + entries.last()
    }
}

/// A diagram being drawn: its records in the order they were emitted.
pub struct Drawio {
    entries: Vec<String>,
}

impl View for Drawio {
    type V = Seq<Seq<char>>;

    closed spec fn view(&self) -> Seq<Seq<char>> {
        self.entries@.map_values(|s: String| s@)
    }
}

/// The geometry text of a rectangle given as x, y, width and height.
pub open spec fn geom(g: Seq<u64>) -> Seq<char> {
    geometry_text(g[0] as nat, g[1] as nat, g[2] as nat, g[3] as nat)
}

impl Drawio {
    fn create_geometry(geometry: &[u64; 4]) -> (r: String)
        ensures
            r@ == geom(geometry@),
    {
        let mut s = "<mxGeometry x=\"".to_owned();
        push_text(&mut s, decimal_text(geometry[0]).as_str());
        push_text(&mut s, "\" y=\"");
        push_text(&mut s, decimal_text(geometry[1]).as_str());
        push_text(&mut s, "\" width=\"");
        push_text(&mut s, decimal_text(geometry[2]).as_str());
        push_text(&mut s, "\" height=\"");
        push_text(&mut s, decimal_text(geometry[3]).as_str());
        push_text(&mut s, "\" as=\"geometry\"/>");
        s
    }

    fn push_entry(&mut self, s: String)
        ensures
            final(self)@ == old(self)@.push(s@),
    {
        self.entries.push(s);
        assert(self@ =~= old(self)@.push(s@));
    }

    fn mx_group_params(&mut self, id: String, geometry: &[u64; 4], parent: &String)
        ensures
            final(self)@ == old(self)@.push(group_text(id@, geom(geometry@), parent@)),
    {
        let mut s = "<mxCell id=\"".to_owned();
        push_text(&mut s, id.as_str());
        push_text(&mut s, "\" value=\"\" style=\"group;border=2px;\" parent=\"");
        push_text(&mut s, parent.as_str());
        push_text(&mut s, "\" vertex=\"1\" connectable=\"0\">");
        push_text(&mut s, Drawio::create_geometry(geometry).as_str());
        push_text(&mut s, "</mxCell>");
        self.push_entry(s);
    }

    fn mx_cell_params(&mut self, id: String, geometry: &[u64; 4], parent: &String, value: String)
        ensures
            final(self)@ == old(self)@.push(cell_text(id@, geom(geometry@), parent@, value@)),
    {
        let mut s = "<mxCell id=\"".to_owned();
        push_text(&mut s, id.as_str());
        push_text(&mut s, "\" value=\"");
        push_text(&mut s, value.as_str());
        push_text(&mut s, "\" style=\"whiteSpace=wrap;html=1;aspect=fixed;fontSize=12;\" parent=\"");
        push_text(&mut s, parent.as_str());
        push_text(&mut s, "\" vertex=\"1\">");
        push_text(&mut s, Drawio::create_geometry(geometry).as_str());
        push_text(&mut s, "</mxCell>");
        self.push_entry(s);
    }

    fn draw_server(&mut self, server: &server::Server, location: &[u64; 2], parent: &String, id: &String)
        requires
            20 * server@.len() <= u64::MAX,
        ensures
            final(self)@ == old(self)@ + server_cells(server@, location@[0] as nat, location@[1] as nat, parent@, id@),
    {
        let ghost cells = server_cells(server@, location@[0] as nat, location@[1] as nat, parent@, id@);
        let n: usize = server.items.len();
        let geometry: [u64; 4] = [location[0], location[1], SERVER_ENTRY_WIDTH, SERVER_ENTRY_HEIGHT * n as u64];
        let mut group_id = id.clone();
        push_text(&mut group_id, "-0");
        self.mx_group_params(group_id.clone(), &geometry, parent);
        assert(geometry@ =~= seq![location@[0], location@[1], 150u64, (20 * n) as u64]);
        assert(old(self)@ + cells.take(1) =~= self@);
        let mut i: usize = 0;
        while i < n
            invariant
                i <= n,
                n == server@.len(),
                20 * n <= u64::MAX,
                group_id@ == id@ + "-0"@,
                cells == server_cells(server@, location@[0] as nat, location@[1] as nat, parent@, id@),
                self@ == old(self)@ + cells.take(i + 1),
            decreases n - i,
        {
            let item_geometry: [u64; 4] = [0, SERVER_ENTRY_HEIGHT * i as u64, SERVER_ENTRY_WIDTH, SERVER_ENTRY_HEIGHT];
            let mut cell_id = id.clone();
            push_text(&mut cell_id, "-");
            push_text(&mut cell_id, decimal_text(i as u64 + 1).as_str());
            let value = server.items[i].value();
            assert(server@[i as int] == server.items@[i as int]@);
            self.mx_cell_params(cell_id, &item_geometry, &group_id, value);
            assert(item_geometry@ =~= seq![0u64, (20 * i) as u64, 150u64, 20u64]);
            assert(cells.take(i + 2) =~= cells.take(i + 1).push(cells[i + 1]));
            assert(old(self)@ + cells.take(i + 2) =~= self@);
            i = i + 1;
        }
        assert(cells.take(n + 1) =~= cells);
    }

    /// Draws one host's box at the location: a group as high as one row per
    /// item, then the items top to bottom.
    pub fn server(&mut self, server: server::Server, location: &[u64; 2], parent: &String, id: String)
        requires
            20 * server@.len() <= u64::MAX,
        ensures
            final(self)@ == old(self)@ + server_cells(server@, location@[0] as nat, location@[1] as nat, parent@, id@),
    {
        self.draw_server(&server, location, parent, &id);
    }

    /// Draws a cluster of hosts: a bounding rectangle eight boxes wide and one
    /// grid row taller than the rows of boxes, then each host's box in
    /// row-major grid order. Returns the height just below the cluster plus
    /// padding, where the next cluster may start.
    pub fn network(&mut self, servers: Vec<server::Server>, location: &[u64; 2], parent: &String, id: String) -> (r: u64)
        requires
            location@[0] + 10 + 7 * 160 <= u64::MAX,
            location@[1] + 20 + network_height(servers@.len() as nat) <= u64::MAX,
            forall|k: int| 0 <= k < servers@.len() ==> 20 * (#[trigger] servers@[k])@.len() <= u64::MAX,
        ensures
            final(self)@ == old(self)@ + network_cells(
                servers@.map_values(|s: server::Server| s@),
                location@[0] as nat,
                location@[1] as nat,
                parent@,
                id@,
                servers@.len() as int,
            ),
            r == location@[1] + 20 + network_height(servers@.len() as nat),
    {
        let ghost views = servers@.map_values(|s: server::Server| s@);
        let ghost x = location@[0] as nat;
        let ghost y = location@[1] as nat;
        let n: usize = servers.len();
        let rows: u64 = n as u64 / NETWORK_GRID_X + 1;
        assert(rows * 10 * 20 == network_height(n as nat));
        let network_geometry: [u64; 4] = [
            location[0],
            location[1],
            NETWORK_GRID_X * (SERVER_ENTRY_WIDTH + SERVER_PADDING) + SERVER_PADDING,
            rows * EXPECTED_SERVER_HEIGHT * SERVER_ENTRY_HEIGHT,
        ];
        let mut bound_id = "network-".to_owned();
        push_text(&mut bound_id, id.as_str());
        push_text(&mut bound_id, "-bound");
        proof { reveal_strlit(""); }
        self.mx_cell_params(bound_id, &network_geometry, parent, "".to_owned());
        assert(network_geometry@ =~= seq![location@[0], location@[1], 1290u64, network_height(n as nat) as u64]);
        assert(self@ =~= old(self)@ + network_cells(views, x, y, parent@, id@, 0));
        let mut index: usize = 0;
        while index < n
            invariant
                index <= n,
                n == servers@.len(),
                views == servers@.map_values(|s: server::Server| s@),
                x == location@[0] as nat,
                y == location@[1] as nat,
                location@[0] + 10 + 7 * 160 <= u64::MAX,
                location@[1] + 20 + network_height(n as nat) <= u64::MAX,
                forall|k: int| 0 <= k < servers@.len() ==> 20 * (#[trigger] servers@[k])@.len() <= u64::MAX,
                self@ == old(self)@ + network_cells(views, x, y, parent@, id@, index as int),
            decreases n - index,
        {
            let ghost k = index as nat;
            assert(k % 8 < 8 && k / 8 <= n as nat / 8) by (nonlinear_arith)
                requires k < n;
            assert((k / 8) * 200 <= (n as nat / 8) * 200) by (nonlinear_arith)
                requires k / 8 <= n as nat / 8;
            assert((k % 8) * 160 <= 7 * 160) by (nonlinear_arith)
                requires k % 8 < 8;
            let column: u64 = index as u64 % NETWORK_GRID_X;
            let row: u64 = index as u64 / NETWORK_GRID_X;
            let server_location: [u64; 2] = [
                location[0] + SERVER_PADDING + column * (SERVER_ENTRY_WIDTH + SERVER_PADDING),
                location[1] + SERVER_PADDING + row * EXPECTED_SERVER_HEIGHT * SERVER_ENTRY_HEIGHT,
            ];
            let mut server_id = "network-".to_owned();
            push_text(&mut server_id, id.as_str());
            push_text(&mut server_id, "-");
            push_text(&mut server_id, decimal_text(index as u64).as_str());
            assert(views[index as int] == servers@[index as int]@);
            self.draw_server(&servers[index], &server_location, parent, &server_id);
            assert(server_location@[0] as nat == x + 10 + grid_column(k) * 160);
            assert(server_location@[1] as nat == y + 10 + grid_row(k) * 200);
            assert(self@ =~= old(self)@ + network_cells(views, x, y, parent@, id@, index + 1));
            index = index + 1;
        }
        location[1] + (SERVER_PADDING * 2) + rows * EXPECTED_SERVER_HEIGHT * SERVER_ENTRY_HEIGHT
    }

    /// Draws a service table: a group as high as its bindings plus three
    /// rows, a three-row header with the service name and
    /// `(product version)`, then one row per binding with the address and the
    /// port.
    pub fn service(&mut self, service: detail::Service, location: &[u64; 2], parent: &String, id: String)
        requires
            20 * (service@.hosts.len() + 3) <= u64::MAX,
        ensures
            final(self)@ == old(self)@ + service_cells(service@, location@[0] as nat, location@[1] as nat, parent@, id@),
    {
        self.draw_service(&service, location, parent, &id);
    }

    /// Draws a service table, leaving the table as it is.
    pub fn draw_service(&mut self, service: &detail::Service, location: &[u64; 2], parent: &String, id: &String)
        requires
            20 * (service@.hosts.len() + 3) <= u64::MAX,
        ensures
            final(self)@ == old(self)@ + service_cells(service@, location@[0] as nat, location@[1] as nat, parent@, id@),
    {
        let ghost sv = service@;
        let n: usize = service.hosts.len();
        let geometry: [u64; 4] = [
            location[0],
            location[1],
            IP_ENTRY_WIDTH + PORT_ENTRY_WIDTH,
            SERVER_ENTRY_HEIGHT * (n as u64 + 3),
        ];
        let mut group_id = id.clone();
        push_text(&mut group_id, "-0");
        self.mx_group_params(group_id.clone(), &geometry, parent);
        assert(geometry@ =~= seq![location@[0], location@[1], 150u64, (20 * (n + 3)) as u64]);
        let header_geometry: [u64; 4] = [0, 0, IP_ENTRY_WIDTH + PORT_ENTRY_WIDTH, SERVER_ENTRY_HEIGHT * 3];
        let mut header_id = "header-".to_owned();
        push_text(&mut header_id, id.as_str());
        push_text(&mut header_id, "-0");
        let mut label = service.service.clone();
        push_text(&mut label, "\n(");
        push_text(&mut label, service.product.as_str());
        push_text(&mut label, " ");
        match &service.version {
            Some(v) => push_text(&mut label, v.as_str()),
            None => push_text(&mut label, "unknown"),
        }
        push_text(&mut label, ")");
        self.mx_cell_params(header_id, &header_geometry, &group_id, label);
        assert(header_geometry@ =~= seq![0u64, 0u64, 150u64, 60u64]);
        let ghost head = self@;
        assert(head =~= old(self)@ + service_cells(sv, location@[0] as nat, location@[1] as nat, parent@, id@).take(2));
        let mut i: usize = 0;
        while i < n
            invariant
                i <= n,
                n == sv.hosts.len(),
                sv == service@,
                20 * (n + 3) <= u64::MAX,
                group_id@ == id@ + "-0"@,
                self@ == head + binding_cells(sv.hosts, id@, i as int),
            decreases n - i,
        {
            let y: u64 = SERVER_ENTRY_HEIGHT * 3 + SERVER_ENTRY_HEIGHT * i as u64;
            let ip_geometry: [u64; 4] = [0, y, IP_ENTRY_WIDTH, SERVER_ENTRY_HEIGHT];
            let port_geometry: [u64; 4] = [IP_ENTRY_WIDTH, y, PORT_ENTRY_WIDTH, SERVER_ENTRY_HEIGHT];
            let number = decimal_text(i as u64 + 1);
            let mut ip_id = id.clone();
            push_text(&mut ip_id, "-");
            push_text(&mut ip_id, number.as_str());
            push_text(&mut ip_id, "a");
            let mut port_id = id.clone();
            push_text(&mut port_id, "-");
            push_text(&mut port_id, number.as_str());
            push_text(&mut port_id, "b");
            let binding = &service.hosts[i];
            self.mx_cell_params(ip_id, &ip_geometry, &group_id, binding.ip.clone());
            self.mx_cell_params(port_id, &port_geometry, &group_id, decimal_text(binding.port as u64));
            assert(ip_geometry@ =~= seq![0u64, (60 + 20 * i) as u64, 100u64, 20u64]);
            assert(port_geometry@ =~= seq![100u64, (60 + 20 * i) as u64, 50u64, 20u64]);
            assert(self@ =~= head + binding_cells(sv.hosts, id@, i + 1));
            i = i + 1;
        }
        assert(self@ =~= old(self)@ + service_cells(sv, location@[0] as nat, location@[1] as nat, parent@, id@));
    }

    /// A diagram with only its opening.
    pub fn new() -> (r: Drawio)
        ensures
            r@ == seq![HEADER@],
    {
        let mut instance = Drawio { entries: Vec::new() };
        instance.push_entry(HEADER.to_owned());
        assert(instance@ =~= seq![HEADER@]);
        instance
    }

    /// Closes the diagram and returns its records joined in emission order.
    pub fn serialize(&mut self) -> (r: String)
        ensures
            final(self)@ == old(self)@.push(FOOTER@),
            r@ == concat(final(self)@),
    {
        self.push_entry(FOOTER.to_owned());
        let mut out = String::new();
        let mut i: usize = 0;
        assert(self@.take(0) =~= Seq::<Seq<char>>::empty());
        while i < self.entries.len()
            invariant
                i <= self@.len(),
                out@ == concat(self@.take(i as int)),
            decreases self.entries.len() - i,
        {
            assert(self@.take(i + 1).drop_last() =~= self@.take(i as int));
            assert(self@[i as int] == self.entries@[i as int]@);
            push_text(&mut out, self.entries[i].as_str());
            i = i + 1;
        }
        assert(self@.take(self@.len() as int) =~= self@);
        out
    }
}

} // verus!
