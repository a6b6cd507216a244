use crate::command::{call, invocation_views, Invocation, InvocationView};
use crate::deployer::{nfs_root, node_logs_path};
use crate::installer::{COPY, MOVE, NFS_BASE_DIR, RESULTS_DIR, ZIP};
use crate::logsource::{logsource_views, LogSource, LogSourceTypes, LogSourceView};
use crate::node::{Node, NodeView};
use crate::service::{service_views, Service, ServiceView};
use crate::text::{
    ends_with, join2, join3, join4, join5, join6, opt_text, render_i64, signed_decimal,
    str_ends_with, texts,
};
use vstd::prelude::*;

verus! {

/// The members of the JSON object that a text holds, in the order in which the
/// object hands them out, each with its value where that is a string. A text
/// that is no JSON object, and no null, holds none.
pub uninterp spec fn json_members(line: Seq<char>) -> Option<
    Seq<(Seq<char>, Option<Seq<char>>)>,
>;

/// The texts of a list of members.
pub open spec fn member_texts(members: Seq<(String, Option<String>)>) -> Seq<
    (Seq<char>, Option<Seq<char>>),
> {
    Seq::new(members.len(), |i: int| (members[i].0@, opt_text(members[i].1)))
}

/// Reads a text as a JSON object (`serde_json::from_str` into a `Map` of
/// `Value`s) and hands out its members, each value as its text where it is of
/// the variant `String`. Nothing is handed out where the text cannot be read.
/// The result depends on the text alone.
#[verifier::external_body]
pub(crate) fn read_members(line: &str) -> (r: Option<Vec<(String, Option<String>)>>)
    ensures
        match r {
            Some(members) => json_members(line@) == Some(member_texts(members@)),
            None => json_members(line@) is None,
        },
{
    let map = serde_json::from_str::<serde_json::Map<String, serde_json::Value>>(line).ok()?;
    Some(map.into_iter().map(|(key, value)| match value {
        serde_json::Value::String(text) => (key, Some(text)),
        serde_json::Value::Null => (key, None),
        serde_json::Value::Bool(_) => (key, None),
        serde_json::Value::Number(_) => (key, None),
        serde_json::Value::Array(_) => (key, None),
        serde_json::Value::Object(_) => (key, None),
    }).collect())
}

/// The members whose values are strings, in order.
pub open spec fn strings_of(members: Seq<(Seq<char>, Option<Seq<char>>)>) -> Seq<
    (Seq<char>, Seq<char>),
>
    decreases members.len(),
{
    if members.len() == 0 {
        seq![]
    } else {
        match members.last().1 {
            Some(value) => strings_of(members.drop_last()).push((members.last().0, value)),
            None => strings_of(members.drop_last()),
        }
    }
}

/// The texts of a list of names and values.
pub open spec fn pair_texts(members: Seq<(String, String)>) -> Seq<(Seq<char>, Seq<char>)> {
    Seq::new(members.len(), |i: int| (members[i].0@, members[i].1@))
}

/// The value of the first member of the given name from place `from` on.
pub open spec fn member(members: Seq<(Seq<char>, Seq<char>)>, name: Seq<char>, from: int) -> Option<
    Seq<char>,
>
    decreases members.len() - from,
{
    if from < 0 || from >= members.len() {
        None
    } else if members[from].0 == name {
        Some(members[from].1)
    } else {
        member(members, name, from + 1)
    }
}

/// The moment and the message of a log record: the values of its members
/// `@timestamp` and `message`, where it has both.
pub open spec fn record_fields(members: Seq<(Seq<char>, Seq<char>)>) -> Option<
    (Seq<char>, Seq<char>),
> {
    match (member(members, "@timestamp"@, 0), member(members, "message"@, 0)) {
        (Some(time), Some(message)) => Some((time, message)),
        _ => None,
    }
}

/// The moment and the message of a line that the log shipper wrote: the
/// members `@timestamp` and `message` of the line, read as a JSON object,
/// where it has both as strings.
pub open spec fn log_fields(line: Seq<char>) -> Option<(Seq<char>, Seq<char>)> {
    match json_members(line) {
        Some(members) => record_fields(strings_of(members)),
        None => None,
    }
}

/// Keeps the members whose values are strings.
pub fn string_members(members: &Vec<(String, Option<String>)>) -> (r: Vec<(String, String)>)
    ensures
        pair_texts(r@) == strings_of(member_texts(members@)),
{
    let mut r: Vec<(String, String)> = Vec::new();
    let mut i: usize = 0;
    assert(pair_texts(r@) =~= strings_of(member_texts(members@).take(0)));
    while i < members.len()
        invariant
            i <= members.len(),
            pair_texts(r@) == strings_of(member_texts(members@).take(i as int)),
        decreases members.len() - i,
    {
        let ghost before = pair_texts(r@);
        proof {
            let next = member_texts(members@).take(i + 1);
            assert(next.drop_last() =~= member_texts(members@).take(i as int));
            assert(next.last() == (members@[i as int].0@, opt_text(members@[i as int].1)));
        }
        match &members[i].1 {
            Some(value) => {
                let pair = (members[i].0.clone(), value.clone());
                r.push(pair);
                assert(pair_texts(r@) =~= before.push((pair.0@, pair.1@)));
            },
            None => {},
        }
        i += 1;
    }
    assert(member_texts(members@).take(i as int) =~= member_texts(members@));
    r
}

/// The value of the first member of the given name.
fn member_of(members: &Vec<(String, String)>, name: &str) -> (r: Option<String>)
    ensures
        opt_text(r) == member(pair_texts(members@), name@, 0),
{
    let mut i: usize = 0;
    while i < members.len()
        invariant
            i <= members.len(),
            member(pair_texts(members@), name@, 0) == member(pair_texts(members@), name@, i as int),
        decreases members.len() - i,
    {
        assert(pair_texts(members@)[i as int] == (members@[i as int].0@, members@[i as int].1@));
        if crate::text::str_eq(members[i].0.as_str(), name) {
            return Some(members[i].1.clone());
        }
        i += 1;
    }
    None
}

/// Picks the moment and the message out of the members of a log record: the
/// values under `@timestamp` and `message`, or nothing where one of the two is
/// missing.
pub fn log_fields_of(members: &Vec<(String, String)>) -> (r: Option<(String, String)>)
    ensures
        match r {
            Some(fields) => record_fields(pair_texts(members@)) == Some((fields.0@, fields.1@)),
            None => record_fields(pair_texts(members@)) is None,
        },
{
    let time = match member_of(members, "@timestamp") {
        Some(time) => time,
        None => {
            return None;
        },
    };
    match member_of(members, "message") {
        Some(message) => Some((time, message)),
        None => None,
    }
}

/// Reads a line that the log shipper wrote: moment and message, or nothing
/// where the line is no JSON object or lacks one of the two as a string.
pub fn read_log_line(line: &str) -> (r: Option<(String, String)>)
    ensures
        match r {
            Some(fields) => log_fields(line@) == Some((fields.0@, fields.1@)),
            None => log_fields(line@) is None,
        },
{
    match read_members(line) {
        Some(members) => log_fields_of(&string_members(&members)),
        None => None,
    }
}

/// The directory below which the log shipper writes, with a slash at its end.
pub open spec fn base_directory(config_value: Seq<char>) -> Seq<char> {
    if ends_with(config_value, "/"@) {
        config_value
    } else {
        config_value + "/"@
    }
}

/// The directory below which the log shipper writes, as the configuration
/// names it, with a slash at its end.
pub fn get_log_base_directory(config_value: Option<String>) -> (r: Option<String>)
    ensures
        opt_text(r) == match config_value {
            Some(value) => Some(base_directory(value@)),
            None => None,
        },
{
    match config_value {
        Some(value) => {
            if str_ends_with(value.as_str(), "/") {
                Some(value)
            } else {
                let mut directory = value;
                directory.append("/");
                Some(directory)
            }
        },
        None => None,
    }
}

/// The file into which the log shipper writes the log of a host.
pub open spec fn host_log(base: Seq<char>, path: Seq<char>) -> Seq<char> {
    base + "logs/"@ + path + "/logs"@
}

/// The files of the hosts among the given log sources, in order.
pub open spec fn host_logs(base: Seq<char>, sources: Seq<LogSourceView>) -> Seq<Seq<char>>
    decreases sources.len(),
{
    if sources.len() == 0 {
        seq![]
    } else if sources.last().source == LogSourceTypes::HOST {
        host_logs(base, sources.drop_last()).push(host_log(base, sources.last().path))
    } else {
        host_logs(base, sources.drop_last())
    }
}

/// The files in which the logs of the hosts among the given sources are found.
pub fn get_log_sources(log_sources: &Vec<LogSource>, base: &str) -> (files: Vec<String>)
    ensures
        texts(files@) == host_logs(base@, logsource_views(log_sources@)),
{
    let mut files: Vec<String> = Vec::new();
    let mut i: usize = 0;
    assert(texts(files@) =~= host_logs(base@, logsource_views(log_sources@).take(0)));
    while i < log_sources.len()
        invariant
            i <= log_sources.len(),
            texts(files@) == host_logs(base@, logsource_views(log_sources@).take(i as int)),
        decreases log_sources.len() - i,
    {
        let ghost before = texts(files@);
        proof {
            let next = logsource_views(log_sources@).take(i + 1);
            assert(next.drop_last() =~= logsource_views(log_sources@).take(i as int));
            assert(next.last() == log_sources@[i as int]@);
        }
        match log_sources[i].source {
            LogSourceTypes::HOST => {
                let file = join4(base, "logs/", log_sources[i].path.as_str(), "/logs");
                files.push(file);
                assert(texts(files@) =~= before.push(file@));
            },
            LogSourceTypes::SERIAL => {},
        }
        i += 1;
    }
    assert(logsource_views(log_sources@).take(i as int) =~= logsource_views(log_sources@));
    files
}

/// A line of a log as it is shown: the message, behind its moment and a colon
/// where moments are asked for.
pub open spec fn shown_line(fields: (Seq<char>, Seq<char>), timestamp: bool) -> Seq<char> {
    if timestamp {
        fields.0 + ": "@ + fields.1
    } else {
        fields.1
    }
}

/// A line of a log as it is shown.
pub fn format_log(time: &str, message: &str, timestamp: bool) -> (line: String)
    ensures
        line@ == shown_line((time@, message@), timestamp),
{
    if timestamp {
        join3(time, ": ", message)
    } else {
        String::from_str(message)
    }
}

/// Every line is a line that the log shipper wrote.
pub open spec fn all_readable(list: Seq<Seq<char>>) -> bool {
    forall|i: int| 0 <= i < list.len() ==> log_fields(#[trigger] list[i]) is Some
}

/// The lines of a log as they are shown, each with the node and the file that
/// it comes from.
pub open spec fn shown_lines(
    node: Seq<char>,
    file: Seq<char>,
    list: Seq<Seq<char>>,
    timestamp: bool,
) -> Seq<(Seq<char>, Seq<char>, Seq<char>)> {
    Seq::new(list.len(), |i: int| (node, file, shown_line(log_fields(list[i]).unwrap(), timestamp)))
}

/// The texts of a list of shown lines.
pub open spec fn line_texts(list: Seq<(String, String, String)>) -> Seq<
    (Seq<char>, Seq<char>, Seq<char>),
> {
    Seq::new(list.len(), |i: int| (list[i].0@, list[i].1@, list[i].2@))
}

/// The lines of the log of a host as they are shown, or nothing where a line
/// is not one that the log shipper wrote.
pub fn get_logs_of_deployment(node: &str, file: &str, content: &Vec<String>, timestamp: bool) -> (r:
    Option<Vec<(String, String, String)>>)
    ensures
        match r {
            Some(shown) => all_readable(texts(content@)) && line_texts(shown@) == shown_lines(
                node@,
                file@,
                texts(content@),
                timestamp,
            ),
            None => !all_readable(texts(content@)),
        },
{
    let ghost wanted = shown_lines(node@, file@, texts(content@), timestamp);
    let mut vec: Vec<(String, String, String)> = Vec::new();
    let mut i: usize = 0;
    while i < content.len()
        invariant
            i <= content.len(),
            wanted == shown_lines(node@, file@, texts(content@), timestamp),
            forall|k: int| 0 <= k < i ==> log_fields(#[trigger] texts(content@)[k]) is Some,
            line_texts(vec@) == wanted.take(i as int),
        decreases content.len() - i,
    {
        let ghost before = line_texts(vec@);
        assert(texts(content@)[i as int] == content@[i as int]@);
        match read_log_line(content[i].as_str()) {
            Some(fields) => {
                let line = format_log(fields.0.as_str(), fields.1.as_str(), timestamp);
                vec.push((String::from_str(node), String::from_str(file), line));
                assert(line_texts(vec@) =~= before.push((node@, file@, line@)));
                assert(wanted.take(i + 1) =~= wanted.take(i as int).push((node@, file@, line@)));
            },
            None => {
                return None;
            },
        }
        i += 1;
    }
    assert(wanted.take(i as int) =~= wanted);
    Some(vec)
}

/// Whether the name of the file is shown before a line of a log that is
/// followed: it is where the line comes from another file than the line
/// before.
pub fn shows_header(last_file: &str, file: &str, filenames: bool) -> (shown: bool)
    ensures
        shown == (filenames && last_file@ != file@),
{
    filenames && !crate::text::str_eq(last_file, file)
}

/// The directory in which the logs of a deployment are gathered.
pub open spec fn deployment_logs_path(id: i64) -> Seq<char> {
    RESULTS_DIR@ + "/"@ + signed_decimal(id as int) + "/"@
}

/// The directory in which the logs of a deployment are gathered.
pub fn deployment_directory(id: i64) -> (path: String)
    ensures
        path@ == deployment_logs_path(id),
{
    join4(RESULTS_DIR, "/", render_i64(id).as_str(), "/")
}

/// The directory in which what a node left behind is found.
pub fn node_directory(node: &str) -> (path: String)
    ensures
        path@ == RESULTS_DIR@ + "/"@ + node@,
{
    join3(RESULTS_DIR, "/", node)
}

/// The call that moves what a node left behind to the logs of a deployment.
pub fn move_node_logs(id: i64, node: &str) -> (r: Invocation)
    ensures
        r@ == call(MOVE@, seq![RESULTS_DIR@ + "/"@ + node@, deployment_logs_path(id)]),
{
    let r = Invocation::new(MOVE).arg(node_directory(node)).arg(deployment_directory(id));
    assert(r@.arguments =~= seq![RESULTS_DIR@ + "/"@ + node@, deployment_logs_path(id)]);
    r
}

/// The call that packs the logs of a deployment into one archive, beside the
/// directory in which they were gathered.
pub fn collect_deployment_logs(id: i64) -> (r: Invocation)
    ensures
        r@ == (InvocationView {
            program: ZIP@,
            arguments: seq![
                "-r"@,
                signed_decimal(id as int) + ".zip"@,
                "./"@ + signed_decimal(id as int),
            ],
            directory: Some(RESULTS_DIR@ + "/"@),
        }),
{
    let number = render_i64(id);
    let r = Invocation::new(ZIP).arg_str("-r").arg(join2(number.as_str(), ".zip")).arg(
        join2("./", number.as_str()),
    ).current_dir(join2(RESULTS_DIR, "/"));
    assert(r@.arguments =~= seq![
        "-r"@,
        signed_decimal(id as int) + ".zip"@,
        "./"@ + signed_decimal(id as int),
    ]);
    r
}

/// The directory of a node's file system, as it is served, in which a service
/// leaves its results.
pub fn results_directory(node: &Node) -> (path: String)
    ensures
        path@ == nfs_root(node@.tftp_prefix) + "/results/"@,
{
    join4(NFS_BASE_DIR, "/", node.tftp_prefix.as_str(), "/results/")
}

/// The call that copies the results of a service to the logs of its node.
pub fn copy_results(node: &Node) -> (r: Invocation)
    ensures
        r@ == call(
            COPY@,
            seq![
                "-a"@,
                nfs_root(node@.tftp_prefix) + "/results/"@,
                node_logs_path(node@.id) + "/results"@,
            ],
        ),
{
    let r = Invocation::new(COPY).arg_str("-a").arg(results_directory(node)).arg(
        join5(RESULTS_DIR, "/", node.id.as_str(), "/logs", "/results"),
    );
    assert(r@.arguments =~= seq![
        "-a"@,
        nfs_root(node@.tftp_prefix) + "/results/"@,
        node_logs_path(node@.id) + "/results"@,
    ]);
    r
}

/// The calls that move the logs of the hosts among the given sources to the
/// logs of a node, in the order of the sources.
pub open spec fn log_moves(id: Seq<char>, base: Seq<char>, sources: Seq<LogSourceView>) -> Seq<
    InvocationView,
>
    decreases sources.len(),
{
    if sources.len() == 0 {
        seq![]
    } else if sources.last().source == LogSourceTypes::HOST {
        log_moves(id, base, sources.drop_last()).push(
            call(
                MOVE@,
                seq![
                    host_log(base, sources.last().path),
                    node_logs_path(id) + "/"@ + sources.last().path + ".log"@,
                ],
            ),
        )
    } else {
        log_moves(id, base, sources.drop_last())
    }
}

/// The calls that gather the logs that the log shipper wrote for a node.
pub fn gather_logs(node: &Node, log_sources: &Vec<LogSource>, base: &str) -> (r: Vec<Invocation>)
    ensures
        invocation_views(r@) == log_moves(node@.id, base@, logsource_views(log_sources@)),
{
    let mut r: Vec<Invocation> = Vec::new();
    let mut i: usize = 0;
    assert(invocation_views(r@) =~= log_moves(node@.id, base@, logsource_views(log_sources@).take(0)));
    while i < log_sources.len()
        invariant
            i <= log_sources.len(),
            invocation_views(r@) == log_moves(
                node@.id,
                base@,
                logsource_views(log_sources@).take(i as int),
            ),
        decreases log_sources.len() - i,
    {
        let ghost before = invocation_views(r@);
        proof {
            let next = logsource_views(log_sources@).take(i + 1);
            assert(next.drop_last() =~= logsource_views(log_sources@).take(i as int));
            assert(next.last() == log_sources@[i as int]@);
        }
        match log_sources[i].source {
            LogSourceTypes::HOST => {
                let from = join4(base, "logs/", log_sources[i].path.as_str(), "/logs");
                let mut to = join4(RESULTS_DIR, "/", node.id.as_str(), "/logs");
                to.append("/");
                to.append(log_sources[i].path.as_str());
                to.append(".log");
                let moved = Invocation::new(MOVE).arg(from).arg(to);
                assert(moved@.arguments =~= seq![
                    host_log(base@, log_sources@[i as int]@.path),
                    node_logs_path(node@.id) + "/"@ + log_sources@[i as int]@.path + ".log"@,
                ]);
                r.push(moved);
                assert(invocation_views(r@) =~= before.push(moved@));
            },
            LogSourceTypes::SERIAL => {},
        }
        i += 1;
    }
    assert(logsource_views(log_sources@).take(i as int) =~= logsource_views(log_sources@));
    r
}

} // verus!
