use crate::command::{call, Invocation, InvocationView};
use crate::text::{join2, join3, join4, join5, join6, render_i64, signed_decimal};
use vstd::prelude::*;

verus! {

/// The address of the server: the one that the environment names, or the
/// local one.
pub open spec fn server_address(named: Option<Seq<char>>) -> Seq<char> {
    "http://"@ + (match named {
        Some(address) => address,
        None => "localhost:9090"@,
    })
}

pub fn get_server_address(named: Option<String>) -> (address: String)
    ensures
        address@ == server_address(crate::text::opt_text(named)),
{
    match named {
        Some(named) => join2("http://", named.as_str()),
        None => join2("http://", "localhost:9090"),
    }
}

/// How a flag is written in an address.
pub open spec fn flag(value: bool) -> Seq<char> {
    if value {
        "true"@
    } else {
        "false"@
    }
}

fn flag_text(value: bool) -> (text: &'static str)
    ensures
        text@ == flag(value),
{
    if value {
        "true"
    } else {
        "false"
    }
}

/// The address from which the list of services is read.
pub fn list_services(server: &str, all: bool, group: bool) -> (url: String)
    ensures
        url@ == server@ + "/service/list/"@ + flag(all) + "/"@ + flag(group),
{
    join5(server, "/service/list/", flag_text(all), "/", flag_text(group))
}

/// The address from which the list of nodes is read.
pub fn list_nodes(server: &str, all: bool) -> (url: String)
    ensures
        url@ == server@ + "/node/list/"@ + flag(all),
{
    join3(server, "/node/list/", flag_text(all))
}

/// The address from which a node is read.
pub fn get_node_by_id(server: &str, id: &str, all: bool) -> (url: String)
    ensures
        url@ == server@ + "/node/get/"@ + id@ + "/"@ + flag(all),
{
    join5(server, "/node/get/", id, "/", flag_text(all))
}

/// The address from which the list of deployments is read.
pub fn list_deployments(server: &str, all: bool) -> (url: String)
    ensures
        url@ == server@ + "/deployment/list/"@ + flag(all),
{
    join3(server, "/deployment/list/", flag_text(all))
}

/// The address from which the list of images is read.
pub fn list_images(server: &str) -> (url: String)
    ensures
        url@ == server@ + "/image/list"@,
{
    join2(server, "/image/list")
}

/// The address to which an image and, where one is wanted, a node are sent to
/// be deployed.
pub fn deploy_single_image(server: &str) -> (url: String)
    ensures
        url@ == server@ + "/deploy/image"@,
{
    join2(server, "/deploy/image")
}

/// The address to which a deployment is sent to be deployed.
pub fn deploy_deployment(server: &str) -> (url: String)
    ensures
        url@ == server@ + "/deploy/file"@,
{
    join2(server, "/deploy/file")
}

/// The address from which the logs of a deployment are read, and the file
/// into which they are written.
pub fn get_deployment_logs(server: &str, id: i64) -> (r: (String, String))
    ensures
        r.0@ == server@ + "/deployment/logs/"@ + signed_decimal(id as int),
        r.1@ == "./"@ + signed_decimal(id as int) + ".zip"@,
{
    let number = render_i64(id);
    (join3(server, "/deployment/logs/", number.as_str()), join3("./", number.as_str(), ".zip"))
}

/// The address from which an image is pulled.
pub fn pull_image(server: &str, name: &str) -> (url: String)
    ensures
        url@ == server@ + "/image/download/"@ + name@,
{
    join3(server, "/image/download/", name)
}

/// The call that pushes an image to the server, with its checksum in the
/// address.
pub fn push_image(server: &str, name: &str, filepath: &str, checksum: &str) -> (r: Invocation)
    ensures
        r@ == call(
            "curl"@,
            seq![
                server@ + "/image/upload/"@ + name@ + ".zip"@ + "/"@ + checksum@,
                "-X"@,
                "POST"@,
                "-H"@,
                "Content-Type: multipart/form-data"@,
                "--form"@,
                "file=@"@ + filepath@,
            ],
        ),
{
    let r = Invocation::new("curl").arg(
        join6(server, "/image/upload/", name, ".zip", "/", checksum),
    ).arg_str("-X").arg_str("POST").arg_str("-H").arg_str("Content-Type: multipart/form-data").arg_str(
        "--form",
    ).arg(join2("file=@", filepath));
    assert(r@.arguments =~= seq![
        server@ + "/image/upload/"@ + name@ + ".zip"@ + "/"@ + checksum@,
        "-X"@,
        "POST"@,
        "-H"@,
        "Content-Type: multipart/form-data"@,
        "--form"@,
        "file=@"@ + filepath@,
    ]);
    r
}

} // verus!
