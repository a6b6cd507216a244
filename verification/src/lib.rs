pub mod architecture;
pub mod arm_preamble;
pub mod bootconfig;
pub mod builder;
pub mod client;
pub mod command;
pub mod config;
pub mod configuration;
pub mod database;
pub mod deployer;
pub mod deployment;
pub mod deployment_row;
pub mod example;
pub mod image_row;
pub mod imagefile;
pub mod installer;
pub mod ledger;
pub mod logs_manager;
pub mod logsource;
pub mod manager;
pub mod mountpoint;
pub mod node;
pub mod node_manager;
pub mod node_row;
pub mod order;
pub mod parser;
pub mod partition;
pub mod post_provisioner;
pub mod power_action;
pub mod power_action_set;
pub mod power_manager;
pub mod preamble;
pub mod provisioner;
pub mod provisioning;
pub mod server;
pub mod service;
pub mod service_row;
pub mod table;
pub mod task;
pub mod text;
pub mod utils;
pub mod watcher;
pub mod x86_preamble;
