use crate::architecture::Architecture;
use crate::logsource::{clone_sources, logsource_views, LogSource, LogSourceView};
use crate::text::opt_text;
use vstd::prelude::*;

verus! {

/// A machine of the cluster, as the configuration describes it.
#[derive(Debug)]
pub struct Node {
    pub id: String,
    pub name: String,
    pub tftp_prefix: String,
    pub mac_address: String,
    pub serial_number: String,
    pub ipv4_address: String,
    pub log_inputs: Vec<LogSource>,
    pub architecture: Architecture,
    pub pxe: bool,
}

/// What a node holds.
pub struct NodeView {
    pub id: Seq<char>,
    pub name: Seq<char>,
    pub tftp_prefix: Seq<char>,
    pub mac_address: Seq<char>,
    pub serial_number: Seq<char>,
    pub ipv4_address: Seq<char>,
    pub log_inputs: Seq<LogSourceView>,
    pub architecture: Architecture,
    pub pxe: bool,
}

impl View for Node {
    type V = NodeView;

    open spec fn view(&self) -> NodeView {
        NodeView {
            id: self.id@,
            name: self.name@,
            tftp_prefix: self.tftp_prefix@,
            mac_address: self.mac_address@,
            serial_number: self.serial_number@,
            ipv4_address: self.ipv4_address@,
            log_inputs: logsource_views(self.log_inputs@),
            architecture: self.architecture,
            pxe: self.pxe,
        }
    }
}

/// What the nodes of a list hold.
pub open spec fn node_views(list: Seq<Node>) -> Seq<NodeView> {
    Seq::new(list.len(), |i: int| list[i]@)
}

/// What the configuration says of one node. A setting that the configuration
/// lacks is absent here.
#[derive(Debug)]
pub struct NodeSettings {
    pub name: Option<String>,
    pub tftp_prefix: Option<String>,
    pub mac_address: Option<String>,
    pub ipv4_address: Option<String>,
    pub serial_number: Option<String>,
    pub architecture: Option<String>,
    pub pxe: Option<bool>,
    pub default_os: Option<String>,
    pub default_user: Option<String>,
    pub storage_device: Option<String>,
    pub log_hosts: Vec<String>,
    pub log_serial: Vec<String>,
    pub power_on: Option<String>,
    pub power_off: Option<String>,
    pub power_reboot: Option<String>,
}

impl NodeSettings {
    /// The architecture that the settings name.
    pub open spec fn named_architecture(&self) -> Option<Architecture> {
        match self.architecture {
            Some(name) => crate::parser::named(name@),
            None => None,
        }
    }

    /// The settings describe a node: they hold its name, the prefix of its
    /// directories, its addresses, its serial number and its architecture.
    pub open spec fn complete(&self) -> bool {
        &&& self.name is Some
        &&& self.tftp_prefix is Some
        &&& self.mac_address is Some
        &&& self.ipv4_address is Some
        &&& self.serial_number is Some
        &&& self.named_architecture() is Some
    }

    /// The node that complete settings describe. A node boots over the
    /// network only where the settings say so.
    pub open spec fn node(&self, id: Seq<char>, log_inputs: Seq<LogSourceView>) -> NodeView {
        NodeView {
            id,
            name: opt_text(self.name).unwrap(),
            tftp_prefix: opt_text(self.tftp_prefix).unwrap(),
            mac_address: opt_text(self.mac_address).unwrap(),
            serial_number: opt_text(self.serial_number).unwrap(),
            ipv4_address: opt_text(self.ipv4_address).unwrap(),
            log_inputs,
            architecture: self.named_architecture().unwrap(),
            pxe: match self.pxe {
                Some(pxe) => pxe,
                None => false,
            },
        }
    }

    /// The architecture that the settings name.
    pub fn read_architecture(&self) -> (r: Option<Architecture>)
        ensures
            r == self.named_architecture(),
    {
        match &self.architecture {
            Some(name) => match Architecture::parse(name.as_str()) {
                Ok(architecture) => {
                    proof {
                        crate::architecture::lemma_names_differ(architecture, Architecture::ARM32);
                        crate::architecture::lemma_names_differ(architecture, Architecture::ARM64);
                        crate::architecture::lemma_names_differ(architecture, Architecture::X86);
                    }
                    Some(architecture)
                },
                Err(_) => {
                    assert(name@ != Architecture::ARM32.name());
                    assert(name@ != Architecture::ARM64.name());
                    assert(name@ != Architecture::X86.name());
                    None
                },
            },
            None => None,
        }
    }

    /// Whether the settings describe a node.
    pub fn is_complete(&self) -> (r: bool)
        ensures
            r == self.complete(),
    {
        self.name.is_some() && self.tftp_prefix.is_some() && self.mac_address.is_some()
            && self.ipv4_address.is_some() && self.serial_number.is_some()
            && self.read_architecture().is_some()
    }
}

fn text_of(setting: &Option<String>) -> (r: String)
    requires
        setting is Some,
    ensures
        Some(r@) == opt_text(*setting),
{
    match setting {
        Some(text) => text.clone(),
        None => String::new(),
    }
}

impl Clone for Node {
    fn clone(&self) -> (r: Self)
        ensures
            r@ == self@,
    {
        Node {
            id: self.id.clone(),
            name: self.name.clone(),
            tftp_prefix: self.tftp_prefix.clone(),
            mac_address: self.mac_address.clone(),
            serial_number: self.serial_number.clone(),
            ipv4_address: self.ipv4_address.clone(),
            log_inputs: clone_sources(&self.log_inputs),
            architecture: self.architecture,
            pxe: self.pxe,
        }
    }
}

impl PartialEq for Node {
    /// Two nodes are the same machine where they agree in identifier, name,
    /// directory prefix, hardware address and serial number.
    fn eq(&self, other: &Self) -> (r: bool) {
        self.id == other.id && self.name == other.name && self.tftp_prefix == other.tftp_prefix
            && self.mac_address == other.mac_address && self.serial_number == other.serial_number
    }
}

impl vstd::std_specs::cmp::PartialEqSpecImpl for Node {
    open spec fn obeys_eq_spec() -> bool {
        true
    }

    open spec fn eq_spec(&self, other: &Self) -> bool {
        &&& self@.id == other@.id
        &&& self@.name == other@.name
        &&& self@.tftp_prefix == other@.tftp_prefix
        &&& self@.mac_address == other@.mac_address
        &&& self@.serial_number == other@.serial_number
    }
}

impl Node {
    /// The node with the given identifier that the settings describe.
    pub fn from_config(id: String, settings: &NodeSettings, log_inputs: Vec<LogSource>) -> (r: Self)
        requires
            settings.complete(),
        ensures
            r@ == settings.node(id@, logsource_views(log_inputs@)),
    {
        let architecture = match settings.read_architecture() {
            Some(architecture) => architecture,
            None => Architecture::ARM64,
        };
        Node {
            id,
            name: text_of(&settings.name),
            tftp_prefix: text_of(&settings.tftp_prefix),
            mac_address: text_of(&settings.mac_address),
            ipv4_address: text_of(&settings.ipv4_address),
            serial_number: text_of(&settings.serial_number),
            log_inputs,
            architecture,
            pxe: match settings.pxe {
                Some(pxe) => pxe,
                None => false,
            },
        }
    }

    /// Whether two nodes are the same machine: they agree in identifier,
    /// name, directory prefix, hardware address and serial number.
    pub fn same_machine(&self, other: &Node) -> (same: bool)
        ensures
            same == (self@.id == other@.id && self@.name == other@.name && self@.tftp_prefix
                == other@.tftp_prefix && self@.mac_address == other@.mac_address
                && self@.serial_number == other@.serial_number),
    {
        self.id == other.id && self.name == other.name && self.tftp_prefix == other.tftp_prefix
            && self.mac_address == other.mac_address && self.serial_number == other.serial_number
    }
}

} // verus!
