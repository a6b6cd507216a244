use cluster_manager::command::Invocation;
use cluster_manager::logsource::{clone_sources, LogSource, LogSourceTypes};
use cluster_manager::table::Table;
use cluster_manager::text::{clone_opt, clone_strings, join2, join4, join5, join6, join7, list_contains};
use cluster_manager::utils::{add_indented_aligned_key_value, append_key_values, finish, ident_and_append};
use string_builder::Builder;

fn strings(items: &[&str]) -> Vec<String> {
    items.iter().map(|s| s.to_string()).collect()
}

#[test]
fn builder_lines_are_indented_and_aligned() {
    let mut builder = Builder::default();
    ident_and_append(&mut builder, "image_partitions {\n", 2);
    add_indented_aligned_key_value(&mut builder, 4, 20, "name", "\"boot\"");
    add_indented_aligned_key_value(&mut builder, 4, 3, "start_sector", "\"8192\"");
    append_key_values(&mut builder, &vec![("a", "1".to_string()), ("bb", "2".to_string())], 1, 3);
    ident_and_append(&mut builder, "}\n", 0);
    assert_eq!(finish(builder), "  image_partitions {\n    name                 = \"boot\"\n    start_sector = \"8192\"\n a   = 1\n bb  = 2\n}\n");
    assert_eq!(finish(Builder::default()), "");
}

#[test]
fn invocations_are_put_together() {
    let call = Invocation::new("rsync").arg_str("-a").arg("from".to_string()).current_dir("/tmp".to_string());
    assert_eq!((call.program.as_str(), call.arguments.clone(), call.directory.clone()), ("rsync", strings(&["-a", "from"]), Some("/tmp".to_string())));
    let copy = call.clone();
    assert_eq!((copy.program, copy.arguments, copy.directory), (call.program, call.arguments, call.directory));
    assert!(Invocation::new("pvs").arguments.is_empty());
    assert!(Invocation::new("pvs").directory.is_none());
}

#[test]
fn log_sources_keep_their_kind() {
    let host = LogSource::host("10.0.0.11".to_string());
    let serial = LogSource::serial("ttyUSB0".to_string());
    assert_eq!((host.path.as_str(), host.source), ("10.0.0.11", LogSourceTypes::HOST));
    assert_eq!((serial.path.as_str(), serial.source), ("ttyUSB0", LogSourceTypes::SERIAL));
    assert_eq!(LogSource::new("x".to_string(), LogSourceTypes::SERIAL).source, LogSourceTypes::SERIAL);
    let copies = clone_sources(&vec![host, serial]);
    assert_eq!(copies.iter().map(|s| s.path.clone()).collect::<Vec<_>>(), strings(&["10.0.0.11", "ttyUSB0"]));
}

#[test]
fn tables_keep_one_value_for_each_key() {
    let mut table: Table<u32> = Table::new();
    assert!(table.is_empty());
    table.insert("a".to_string(), 1);
    table.insert("b".to_string(), 2);
    table.insert("a".to_string(), 3);
    assert_eq!(table.len(), 2);
    assert_eq!(table.get("a"), Some(&3));
    assert_eq!(table.get("b"), Some(&2));
    assert_eq!(table.get("c"), None);
    assert_eq!(*table.value_at(0), 3);
    assert_eq!(table.into_values(), vec![3, 2]);
}

#[test]
fn texts_are_joined_and_copied() {
    assert_eq!(join2("a", "b"), "ab");
    assert_eq!(join4("a", "b", "c", "d"), "abcd");
    assert_eq!(join5("a", "b", "c", "d", "e"), "abcde");
    assert_eq!(join6("a", "b", "c", "d", "e", "f"), "abcdef");
    assert_eq!(join7("a", "b", "c", "d", "e", "f", "g"), "abcdefg");
    assert!(list_contains(&strings(&["x", "y"]), "y"));
    assert!(!list_contains(&strings(&["x", "y"]), "z"));
    assert_eq!(clone_strings(&strings(&["x", "y"])), strings(&["x", "y"]));
    assert_eq!(clone_opt(&Some("x".to_string())), Some("x".to_string()));
    assert_eq!(clone_opt(&None), None);
}
