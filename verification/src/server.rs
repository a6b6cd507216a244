use crate::installer::{OS_IMAGES_DIR, RESULTS_DIR};
use crate::text::{join2, join3, join4, render_i64, signed_decimal};
use vstd::prelude::*;

verus! {

/// The directory into which images are uploaded before their checksum is
/// known to be right.
pub const UPLOAD_PATH: &'static str = "/tmp/rest-api/upload";

/// The answers of the server.
#[derive(Debug, Clone, Copy, PartialEq, Eq, Structural)]
pub enum Status {
    Fine,
    NotFound,
    Conflict,
}

impl Status {
    /// The number of an answer.
    pub open spec fn number(self) -> u16 {
        match self {
            Status::Fine => 200,
            Status::NotFound => 404,
            Status::Conflict => 409,
        }
    }

    pub fn code(&self) -> (code: u16)
        ensures
            code == self.number(),
    {
        match self {
            Status::Fine => 200,
            Status::NotFound => 404,
            Status::Conflict => 409,
        }
    }
}

/// What is done with an image that was uploaded.
#[derive(Debug, Clone, Copy, PartialEq, Eq, Structural)]
pub enum UploadStep {
    /// The checksum is right: the image is moved to the images of the
    /// cluster.
    Move,
    /// The checksum is wrong: the upload is deleted, and the images of the
    /// cluster stay as they are.
    Delete,
}

/// What is done with an image that was uploaded, given whether its checksum
/// is the one that the sender named.
pub fn upload_step(checksum_matches: bool) -> (step: UploadStep)
    ensures
        step == if checksum_matches {
            UploadStep::Move
        } else {
            UploadStep::Delete
        },
{
    if checksum_matches {
        UploadStep::Move
    } else {
        UploadStep::Delete
    }
}

/// The answer to an upload: all is well where the checksum was right and the
/// image could be moved, and a conflict is reported else.
pub fn upload_image(checksum_matches: bool, moved: bool) -> (status: Status)
    ensures
        status == if checksum_matches && moved {
            Status::Fine
        } else {
            Status::Conflict
        },
{
    if checksum_matches && moved {
        Status::Fine
    } else {
        Status::Conflict
    }
}

/// The file into which an image is uploaded.
pub fn upload_file(filename: &str) -> (path: String)
    ensures
        path@ == UPLOAD_PATH@ + "/"@ + filename@,
{
    join3(UPLOAD_PATH, "/", filename)
}

/// The file of an uploaded image among the images of the cluster.
pub fn image_file(filename: &str) -> (path: String)
    ensures
        path@ == OS_IMAGES_DIR@ + "/"@ + filename@,
{
    join3(OS_IMAGES_DIR, "/", filename)
}

/// The archive of an image and the header that names it to the receiver.
pub fn download_image(name: &str) -> (r: (String, String))
    ensures
        r.0@ == OS_IMAGES_DIR@ + "/"@ + name@ + ".zip"@,
        r.1@ == "form-data; filename="@ + name@ + ".zip"@,
{
    (join4(OS_IMAGES_DIR, "/", name, ".zip"), join3("form-data; filename=", name, ".zip"))
}

/// The archive of the logs of a deployment and the header that names it to
/// the receiver.
pub fn get_deployment_logs(id: i64) -> (r: (String, String))
    ensures
        r.0@ == RESULTS_DIR@ + "/"@ + signed_decimal(id as int) + ".zip"@,
        r.1@ == "form-data; filename="@ + signed_decimal(id as int) + ".zip"@,
{
    let number = render_i64(id);
    (
        join4(RESULTS_DIR, "/", number.as_str(), ".zip"),
        join3("form-data; filename=", number.as_str(), ".zip"),
    )
}

/// The answer to a request for something that may not be there.
pub fn found(there: bool) -> (status: Status)
    ensures
        status == if there {
            Status::Fine
        } else {
            Status::NotFound
        },
{
    if there {
        Status::Fine
    } else {
        Status::NotFound
    }
}

} // verus!
