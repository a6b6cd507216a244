use crate::node::{Node, NodeView};
use crate::text::{clone_opt, opt_text, texts};
use vstd::prelude::*;

verus! {

/// One line of the list of nodes.
#[derive(Debug)]
pub struct NodeRow {
    pub id: String,
    pub name: String,
    pub mac_address: String,
    pub tftp_prefix: String,
    pub serial_number: String,
    pub status: Option<bool>,
    pub hostname: Option<String>,
    pub ipv4_address: Option<String>,
    pub usable: bool,
}

/// What a line of the list of nodes holds.
pub struct NodeRowView {
    pub id: Seq<char>,
    pub name: Seq<char>,
    pub mac_address: Seq<char>,
    pub tftp_prefix: Seq<char>,
    pub serial_number: Seq<char>,
    pub status: Option<bool>,
    pub hostname: Option<Seq<char>>,
    pub ipv4_address: Option<Seq<char>>,
    pub usable: bool,
}

/// The text that stands for something that is not known.
pub open spec fn dash() -> Seq<char> {
    "\u{2014}"@
}

/// A text, or the dash where there is none.
pub open spec fn or_dash(text: Option<Seq<char>>) -> Seq<char> {
    match text {
        Some(text) => text,
        None => dash(),
    }
}

impl NodeRowView {
    /// The cells of the line: identifier, name, hardware address, directory
    /// prefix, serial number, whether the node is up, host name, address, and
    /// whether the node can be used.
    pub open spec fn cells(self) -> Seq<Seq<char>> {
        seq![
            self.id,
            self.name,
            self.mac_address,
            self.tftp_prefix,
            self.serial_number,
            match self.status {
                Some(true) => "up"@,
                Some(false) => "down"@,
                None => dash(),
            },
            or_dash(self.hostname),
            or_dash(self.ipv4_address),
            if self.usable {
                "yes"@
            } else {
                "no"@
            },
        ]
    }
}

impl View for NodeRow {
    type V = NodeRowView;

    open spec fn view(&self) -> NodeRowView {
        NodeRowView {
            id: self.id@,
            name: self.name@,
            mac_address: self.mac_address@,
            tftp_prefix: self.tftp_prefix@,
            serial_number: self.serial_number@,
            status: self.status,
            hostname: opt_text(self.hostname),
            ipv4_address: opt_text(self.ipv4_address),
            usable: self.usable,
        }
    }
}

/// What the lines of a list hold.
pub open spec fn node_row_views(list: Seq<NodeRow>) -> Seq<NodeRowView> {
    Seq::new(list.len(), |i: int| list[i]@)
}

fn text_or_dash(text: &Option<String>) -> (r: String)
    ensures
        r@ == or_dash(opt_text(*text)),
{
    match text {
        Some(text) => text.clone(),
        None => String::from_str("\u{2014}"),
    }
}

impl NodeRow {
    pub fn new(
        node: Node,
        status: Option<bool>,
        hostname: Option<String>,
        ipv4_address: Option<String>,
        usable: bool,
    ) -> (r: Self)
        ensures
            r@ == (NodeRowView {
                id: node@.id,
                name: node@.name,
                mac_address: node@.mac_address,
                tftp_prefix: node@.tftp_prefix,
                serial_number: node@.serial_number,
                status,
                hostname: opt_text(hostname),
                ipv4_address: opt_text(ipv4_address),
                usable,
            }),
    {
        NodeRow {
            id: node.id,
            name: node.name,
            mac_address: node.mac_address,
            tftp_prefix: node.tftp_prefix,
            serial_number: node.serial_number,
            status,
            hostname,
            ipv4_address,
            usable,
        }
    }

    /// The texts of the cells of the line.
    pub fn get_cells(&self) -> (cells: Vec<String>)
        ensures
            texts(cells@) == self@.cells(),
    {
        let mut cells: Vec<String> = Vec::new();
        cells.push(self.id.clone());
        cells.push(self.name.clone());
        cells.push(self.mac_address.clone());
        cells.push(self.tftp_prefix.clone());
        cells.push(self.serial_number.clone());
        cells.push(
            match self.status {
                Some(true) => String::from_str("up"),
                Some(false) => String::from_str("down"),
                None => String::from_str("\u{2014}"),
            },
        );
        cells.push(text_or_dash(&self.hostname));
        cells.push(text_or_dash(&self.ipv4_address));
        cells.push(
            if self.usable {
                String::from_str("yes")
            } else {
                String::from_str("no")
            },
        );
        assert(texts(cells@) =~= self@.cells());
        cells
    }
}

} // verus!
