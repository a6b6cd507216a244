use crate::logsource::{logsource_views, LogSource, LogSourceTypes, LogSourceView};
use crate::node::{node_views, Node, NodeSettings, NodeView};
use crate::node_manager::{verify_node_usability, Plumbing, PlumbingView};
use crate::power_action::{PowerAction, PowerActionView, Type};
use crate::power_action_set::{outcome, PowerActionSet};
use crate::text::{clone_opt, opt_text, str_eq, texts, words};
use vstd::prelude::*;

verus! {

/// What the configuration file holds: the nodes, by identifier, and the
/// settings of the server, by name.
#[derive(Debug)]
pub struct ClusterConfig {
    pub nodes: Vec<(String, NodeSettings)>,
    pub properties: Vec<(String, String)>,
}

/// The place of the first entry of the given name.
pub open spec fn property_place(properties: Seq<(String, String)>, name: Seq<char>, from: int) -> Option<
    int,
>
    decreases properties.len() - from,
{
    if from < 0 || from >= properties.len() {
        None
    } else if properties[from].0@ == name {
        Some(from)
    } else {
        property_place(properties, name, from + 1)
    }
}

/// The place of the first node of the given identifier.
pub open spec fn node_place(nodes: Seq<(String, NodeSettings)>, id: Seq<char>, from: int) -> Option<
    int,
>
    decreases nodes.len() - from,
{
    if from < 0 || from >= nodes.len() {
        None
    } else if nodes[from].0@ == id {
        Some(from)
    } else {
        node_place(nodes, id, from + 1)
    }
}

/// The log sources of the given kind at the given paths.
pub open spec fn sources_at(paths: Seq<Seq<char>>, kind: LogSourceTypes) -> Seq<LogSourceView> {
    Seq::new(paths.len(), |i: int| LogSourceView { path: paths[i], source: kind })
}

impl ClusterConfig {
    /// The setting of the server of the given name.
    pub open spec fn property(&self, name: Seq<char>) -> Option<Seq<char>> {
        match property_place(self.properties@, name, 0) {
            Some(i) => Some(self.properties@[i].1@),
            None => None,
        }
    }

    /// What the configuration says of the node of the given identifier.
    pub open spec fn settings(&self, id: Seq<char>) -> Option<NodeSettings> {
        match node_place(self.nodes@, id, 0) {
            Some(i) => Some(self.nodes@[i].1),
            None => None,
        }
    }

    /// The log sources that the configuration names for a node: the hosts,
    /// then the serial lines.
    pub open spec fn log_sources(&self, id: Seq<char>) -> Seq<LogSourceView> {
        match self.settings(id) {
            Some(settings) => sources_at(texts(settings.log_hosts@), LogSourceTypes::HOST)
                + sources_at(texts(settings.log_serial@), LogSourceTypes::SERIAL),
            None => seq![],
        }
    }

    /// Every node of the configuration is described in full.
    pub open spec fn complete(&self) -> bool {
        forall|i: int| 0 <= i < self.nodes@.len() ==> (#[trigger] self.nodes@[i]).1.complete()
    }

    /// The nodes that the configuration describes, in its order.
    pub open spec fn all_nodes(&self) -> Seq<NodeView> {
        Seq::new(
            self.nodes@.len(),
            |i: int| self.nodes@[i].1.node(self.nodes@[i].0@, self.log_sources(self.nodes@[i].0@)),
        )
    }

    /// The place of the settings of a node.
    fn find_node(&self, id: &str) -> (r: Option<usize>)
        ensures
            match r {
                Some(i) => node_place(self.nodes@, id@, 0) == Some(i as int) && i < self.nodes.len(),
                None => node_place(self.nodes@, id@, 0) is None,
            },
    {
        let mut i: usize = 0;
        while i < self.nodes.len()
            invariant
                i <= self.nodes.len(),
                node_place(self.nodes@, id@, 0) == node_place(self.nodes@, id@, i as int),
            decreases self.nodes.len() - i,
        {
            if str_eq(self.nodes[i].0.as_str(), id) {
                return Some(i);
            }
            i += 1;
        }
        None
    }

    /// Whether every node of the configuration is described in full.
    pub fn is_complete(&self) -> (r: bool)
        ensures
            r == self.complete(),
    {
        let mut i: usize = 0;
        while i < self.nodes.len()
            invariant
                i <= self.nodes.len(),
                forall|k: int| 0 <= k < i ==> (#[trigger] self.nodes@[k]).1.complete(),
            decreases self.nodes.len() - i,
        {
            if !self.nodes[i].1.is_complete() {
                return false;
            }
            i += 1;
        }
        true
    }
}

/// Reads a setting of the server.
pub fn get(config: &ClusterConfig, property: &str) -> (r: Option<String>)
    ensures
        opt_text(r) == config.property(property@),
{
    let mut i: usize = 0;
    while i < config.properties.len()
        invariant
            i <= config.properties.len(),
            property_place(config.properties@, property@, 0) == property_place(
                config.properties@,
                property@,
                i as int,
            ),
        decreases config.properties.len() - i,
    {
        if str_eq(config.properties[i].0.as_str(), property) {
            return Some(config.properties[i].1.clone());
        }
        i += 1;
    }
    None
}

/// Reads a setting of the server, or takes the given value where the
/// configuration names none.
pub fn get_or_default(config: &ClusterConfig, property: &str, default: &str) -> (r: String)
    ensures
        r@ == match config.property(property@) {
            Some(value) => value,
            None => default@,
        },
{
    match get(config, property) {
        Some(value) => value,
        None => String::from_str(default),
    }
}

pub fn get_log_source_from_array(source: &Vec<String>, logtype: &LogSourceTypes) -> (vec: Vec<
    LogSource,
>)
    ensures
        logsource_views(vec@) == sources_at(texts(source@), *logtype),
{
    let mut vec: Vec<LogSource> = Vec::new();
    let mut i: usize = 0;
    while i < source.len()
        invariant
            i <= source.len(),
            logsource_views(vec@) == sources_at(texts(source@), *logtype).take(i as int),
        decreases source.len() - i,
    {
        let ghost before = logsource_views(vec@);
        let entry = match logtype {
            LogSourceTypes::HOST => LogSource::host(source[i].clone()),
            LogSourceTypes::SERIAL => LogSource::serial(source[i].clone()),
        };
        vec.push(entry);
        assert(logsource_views(vec@) =~= before.push(entry@));
        assert(sources_at(texts(source@), *logtype).take(i + 1) =~= sources_at(
            texts(source@),
            *logtype,
        ).take(i as int).push(entry@));
        i += 1;
    }
    assert(sources_at(texts(source@), *logtype).take(i as int) =~= sources_at(
        texts(source@),
        *logtype,
    ));
    vec
}

pub fn get_log_sources(config: &ClusterConfig, id: &str) -> (vec: Vec<LogSource>)
    ensures
        logsource_views(vec@) == config.log_sources(id@),
{
    match config.find_node(id) {
        Some(i) => {
            let mut vec = get_log_source_from_array(&config.nodes[i].1.log_hosts, &LogSourceTypes::HOST);
            let ghost hosts = logsource_views(vec@);
            let mut serial = get_log_source_from_array(
                &config.nodes[i].1.log_serial,
                &LogSourceTypes::SERIAL,
            );
            let ghost lines = logsource_views(serial@);
            vec.append(&mut serial);
            assert(logsource_views(vec@) =~= hosts + lines);
            vec
        },
        None => {
            let vec: Vec<LogSource> = Vec::new();
            assert(logsource_views(vec@) =~= Seq::<LogSourceView>::empty());
            vec
        },
    }
}

/// The log sources of a node: those that the configuration names for it, and
/// the log that the log shipper keeps under the node's address.
pub fn get_log_sources_of(config: &ClusterConfig, node: &Node) -> (vec: Vec<LogSource>)
    ensures
        logsource_views(vec@) == config.log_sources(node@.id).push(
            LogSourceView { path: node@.ipv4_address, source: LogSourceTypes::HOST },
        ),
{
    let mut vec = get_log_sources(config, node.id.as_str());
    let ghost before = logsource_views(vec@);
    let own = LogSource::new(node.ipv4_address.clone(), LogSourceTypes::HOST);
    vec.push(own);
    assert(logsource_views(vec@) =~= before.push(own@));
    vec
}

/// The nodes that the configuration describes. A configuration without nodes
/// is an error.
pub fn get_all_nodes(config: &ClusterConfig) -> (r: Result<Vec<Node>, &'static str>)
    requires
        config.complete(),
    ensures
        match r {
            Ok(nodes) => config.nodes@.len() > 0 && node_views(nodes@) == config.all_nodes(),
            Err(message) => config.nodes@.len() == 0 && message@ == "no nodes"@,
        },
{
    let mut vec: Vec<Node> = Vec::new();
    let mut i: usize = 0;
    while i < config.nodes.len()
        invariant
            i <= config.nodes.len(),
            config.complete(),
            node_views(vec@) == config.all_nodes().take(i as int),
        decreases config.nodes.len() - i,
    {
        let ghost before = node_views(vec@);
        let id = config.nodes[i].0.clone();
        let sources = get_log_sources(config, id.as_str());
        let node = Node::from_config(id, &config.nodes[i].1, sources);
        vec.push(node);
        assert(node_views(vec@) =~= before.push(node@));
        assert(config.all_nodes().take(i + 1) =~= config.all_nodes().take(i as int).push(node@));
        i += 1;
    }
    assert(config.all_nodes().take(i as int) =~= config.all_nodes());
    if vec.len() == 0 {
        Err("no nodes")
    } else {
        Ok(vec)
    }
}

/// The nodes of the list that can be used, in order.
pub open spec fn usable_nodes(nodes: Seq<NodeView>, plumbing: PlumbingView) -> Seq<NodeView>
    decreases nodes.len(),
{
    if nodes.len() == 0 {
        seq![]
    } else if plumbing.usable(nodes.last()) {
        usable_nodes(nodes.drop_last(), plumbing).push(nodes.last())
    } else {
        usable_nodes(nodes.drop_last(), plumbing)
    }
}

/// The nodes of the configuration that can be used.
pub fn get_nodes(config: &ClusterConfig, plumbing: &Plumbing) -> (r: Result<Vec<Node>, &'static str>)
    requires
        config.complete(),
    ensures
        match r {
            Ok(nodes) => config.nodes@.len() > 0 && node_views(nodes@) == usable_nodes(
                config.all_nodes(),
                plumbing@,
            ),
            Err(message) => config.nodes@.len() == 0 && message@ == "no nodes"@,
        },
{
    match get_all_nodes(config) {
        Ok(all_nodes) => {
            let mut vec: Vec<Node> = Vec::new();
            let mut i: usize = 0;
            assert(node_views(vec@) =~= usable_nodes(node_views(all_nodes@).take(0), plumbing@));
            while i < all_nodes.len()
                invariant
                    i <= all_nodes.len(),
                    node_views(vec@) == usable_nodes(node_views(all_nodes@).take(i as int), plumbing@),
                decreases all_nodes.len() - i,
            {
                let ghost before = node_views(vec@);
                proof {
                    let next = node_views(all_nodes@).take(i + 1);
                    assert(next.drop_last() =~= node_views(all_nodes@).take(i as int));
                    assert(next.last() == all_nodes@[i as int]@);
                }
                if verify_node_usability(plumbing, &all_nodes[i]) {
                    let node = all_nodes[i].clone();
                    vec.push(node);
                    assert(node_views(vec@) =~= before.push(node@));
                }
                i += 1;
            }
            assert(node_views(all_nodes@).take(i as int) =~= node_views(all_nodes@));
            Ok(vec)
        },
        Err(s) => Err(s),
    }
}

/// The place of the first node of the given identifier.
pub open spec fn first_with_id(nodes: Seq<NodeView>, id: Seq<char>, from: int) -> Option<int>
    decreases nodes.len() - from,
{
    if from < 0 || from >= nodes.len() {
        None
    } else if nodes[from].id == id {
        Some(from)
    } else {
        first_with_id(nodes, id, from + 1)
    }
}

/// The node of the given identifier: among all nodes of the configuration, or
/// among those that can be used.
pub fn get_node_by_id(config: &ClusterConfig, plumbing: &Plumbing, id: &str, all: bool) -> (r: Option<
    Node,
>)
    requires
        config.complete(),
    ensures
        ({
            let nodes = if all {
                config.all_nodes()
            } else {
                usable_nodes(config.all_nodes(), plumbing@)
            };
            match r {
                Some(node) => config.nodes@.len() > 0 && first_with_id(nodes, id@, 0) is Some
                    && node@ == nodes[first_with_id(nodes, id@, 0)->0],
                None => config.nodes@.len() == 0 || first_with_id(nodes, id@, 0) is None,
            }
        }),
{
    let nodes = if all {
        get_all_nodes(config)
    } else {
        get_nodes(config, plumbing)
    };
    match nodes {
        Ok(nodes) => {
            let mut i: usize = 0;
            while i < nodes.len()
                invariant
                    i <= nodes.len(),
                    config.nodes@.len() > 0,
                    node_views(nodes@) == if all {
                        config.all_nodes()
                    } else {
                        usable_nodes(config.all_nodes(), plumbing@)
                    },
                    first_with_id(node_views(nodes@), id@, 0) == first_with_id(
                        node_views(nodes@),
                        id@,
                        i as int,
                    ),
                decreases nodes.len() - i,
            {
                assert(node_views(nodes@)[i as int] == nodes@[i as int]@);
                if str_eq(nodes[i].id.as_str(), id) {
                    return Some(nodes[i].clone());
                }
                i += 1;
            }
            None
        },
        Err(_) => None,
    }
}

/// What a power command line of the configuration gives: the command that was
/// read from it, or, where there is none or it holds no word, the reason.
pub open spec fn power_entry(line: Option<String>, action: Type, missing: Seq<char>) -> Result<
    PowerActionView,
    Seq<char>,
> {
    match line {
        Some(line) => if words(line@).len() > 0 {
            Ok(
                PowerActionView {
                    action,
                    command: words(line@)[0],
                    arguments: words(line@).skip(1),
                },
            )
        } else {
            Err("Could not parse power command"@)
        },
        None => Err(missing),
    }
}

fn read_power(line: &Option<String>, action: Type, missing: &str) -> (r: Result<PowerAction, String>)
    ensures
        outcome(r) == power_entry(*line, action, missing@),
{
    match line {
        Some(line) => PowerAction::parse(action, line.as_str()),
        None => Err(String::from_str(missing)),
    }
}

/// The power command lines that the configuration names for a node: on, off
/// and reboot.
pub fn get_power_table_of(config: &ClusterConfig, node: &Node) -> (r: Option<
    (Option<String>, Option<String>, Option<String>),
>)
    ensures
        match r {
            Some(table) => config.settings(node@.id) is Some && opt_text(table.0) == opt_text(
                config.settings(node@.id)->0.power_on,
            ) && opt_text(table.1) == opt_text(config.settings(node@.id)->0.power_off) && opt_text(
                table.2,
            ) == opt_text(config.settings(node@.id)->0.power_reboot),
            None => config.settings(node@.id) is None,
        },
{
    match config.find_node(node.id.as_str()) {
        Some(i) => Some(
            (
                clone_opt(&config.nodes[i].1.power_on),
                clone_opt(&config.nodes[i].1.power_off),
                clone_opt(&config.nodes[i].1.power_reboot),
            ),
        ),
        None => None,
    }
}

/// The power commands of a node, as the configuration names them.
pub fn get_power_commands_of(config: &ClusterConfig, node: &Node) -> (r: PowerActionSet)
    ensures
        match config.settings(node@.id) {
            Some(settings) => {
                &&& r.entry(Type::ON) == power_entry(settings.power_on, Type::ON, "no on command"@)
                &&& r.entry(Type::OFF) == power_entry(
                    settings.power_off,
                    Type::OFF,
                    "no off command"@,
                )
                &&& r.entry(Type::REBOOT) == power_entry(
                    settings.power_reboot,
                    Type::REBOOT,
                    "no reboot command"@,
                )
            },
            None => {
                &&& r.entry(Type::ON) == Err::<PowerActionView, Seq<char>>("no on command"@)
                &&& r.entry(Type::OFF) == Err::<PowerActionView, Seq<char>>("no off command"@)
                &&& r.entry(Type::REBOOT) == Err::<PowerActionView, Seq<char>>(
                    "no reboot command"@,
                )
            },
        },
{
    match config.find_node(node.id.as_str()) {
        Some(i) => {
            let settings = &config.nodes[i].1;
            PowerActionSet::new(
                read_power(&settings.power_on, Type::ON, "no on command"),
                read_power(&settings.power_off, Type::OFF, "no off command"),
                read_power(&settings.power_reboot, Type::REBOOT, "no reboot command"),
            )
        },
        None => PowerActionSet::new(
            Err(String::from_str("no on command")),
            Err(String::from_str("no off command")),
            Err(String::from_str("no reboot command")),
        ),
    }
}

/// The image that a node runs while an image is written to its storage.
pub fn get_default_os_for(config: &ClusterConfig, node: &Node) -> (r: Option<String>)
    ensures
        opt_text(r) == match config.settings(node@.id) {
            Some(settings) => opt_text(settings.default_os),
            None => None,
        },
{
    match config.find_node(node.id.as_str()) {
        Some(i) => clone_opt(&config.nodes[i].1.default_os),
        None => None,
    }
}

pub fn get_default_user_for(config: &ClusterConfig, node: &Node) -> (r: Option<String>)
    ensures
        opt_text(r) == match config.settings(node@.id) {
            Some(settings) => opt_text(settings.default_user),
            None => None,
        },
{
    match config.find_node(node.id.as_str()) {
        Some(i) => clone_opt(&config.nodes[i].1.default_user),
        None => None,
    }
}

/// The device of the storage of a node to which images are written.
pub fn get_storage_device_of(config: &ClusterConfig, node: &Node) -> (r: Option<String>)
    ensures
        opt_text(r) == match config.settings(node@.id) {
            Some(settings) => opt_text(settings.storage_device),
            None => None,
        },
{
    match config.find_node(node.id.as_str()) {
        Some(i) => clone_opt(&config.nodes[i].1.storage_device),
        None => None,
    }
}

} // verus!
