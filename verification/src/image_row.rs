use crate::configuration::{Configuration, ConfigurationView};
use crate::node_row::dash;
use crate::text::texts;
use vstd::prelude::*;

verus! {

/// One line of the list of images: the image's name and, where it could be
/// read, its manifest.
#[derive(Debug)]
pub struct ImageRow {
    pub filename: String,
    pub configuration: Option<Configuration>,
}

/// The cells of a line of the list of images: the name and, where the
/// manifest could be read, the architecture and whether the image is written
/// to the node's storage.
pub open spec fn image_cells(filename: Seq<char>, configuration: Option<ConfigurationView>) -> Seq<
    Seq<char>,
> {
    match configuration {
        Some(config) => seq![
            filename,
            config.architecture.name(),
            if config.on_device {
                "yes"@
            } else {
                "no"@
            },
        ],
        None => seq![filename, dash(), dash()],
    }
}

impl ImageRow {
    /// What the manifest of the line holds, where there is one.
    pub open spec fn manifest(&self) -> Option<ConfigurationView> {
        match self.configuration {
            Some(config) => Some(config@),
            None => None,
        }
    }

    pub fn new(filename: String, configuration: Option<Configuration>) -> (r: Self)
        ensures
            r.filename == filename,
            r.configuration == configuration,
    {
        ImageRow { filename, configuration }
    }

    /// The texts of the cells of the line.
    pub fn get_cells(&self) -> (cells: Vec<String>)
        ensures
            texts(cells@) == image_cells(self.filename@, self.manifest()),
    {
        let mut cells: Vec<String> = Vec::new();
        cells.push(self.filename.clone());
        match &self.configuration {
            Some(config) => {
                cells.push(String::from_str(config.architecture.get_name()));
                cells.push(
                    if config.on_device {
                        String::from_str("yes")
                    } else {
                        String::from_str("no")
                    },
                );
            },
            None => {
                cells.push(String::from_str("\u{2014}"));
                cells.push(String::from_str("\u{2014}"));
            },
        }
        assert(texts(cells@) =~= image_cells(self.filename@, self.manifest()));
        cells
    }
}

} // verus!
