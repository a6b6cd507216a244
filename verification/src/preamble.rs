use crate::arm_preamble::{ArmPreamble, ArmPreambleView};
use crate::utils::{
    append_key_values, builder_append, builder_is_text, builder_new, builder_text, finish,
    key_value_lines, pairs,
};
use crate::x86_preamble::{X86Preamble, X86PreambleView};
use vstd::prelude::*;

verus! {

/// The settings of the builder that an image's architecture calls for.
#[derive(Debug)]
pub enum Preamble {
    Arm(ArmPreamble),
    X86(X86Preamble),
}

/// What the settings hold.
pub enum PreambleView {
    Arm(ArmPreambleView),
    X86(X86PreambleView),
}

/// The declaration of one variable in a builder input file.
pub open spec fn variable_text(variable: (Seq<char>, Seq<char>, Seq<char>)) -> Seq<char> {
    "variable \""@ + variable.0 + "\" {\n"@ + "  type    = "@ + variable.1 + "\n  default = \""@
        + variable.2 + "\"\n}\n"@
}

/// The declarations of the given variables, in order.
pub open spec fn variables_text(variables: Seq<(Seq<char>, Seq<char>, Seq<char>)>) -> Seq<char>
    decreases variables.len(),
{
    if variables.len() == 0 {
        seq![]
    } else {
        variables_text(variables.drop_last()) + variable_text(variables.last())
    }
}

/// The texts of a list of variables.
pub open spec fn triples(variables: Seq<(String, String, String)>) -> Seq<
    (Seq<char>, Seq<char>, Seq<char>),
> {
    Seq::new(variables.len(), |i: int| (variables[i].0@, variables[i].1@, variables[i].2@))
}

impl PreambleView {
    /// The variables that the builder input file declares.
    pub open spec fn variables(self) -> Seq<(Seq<char>, Seq<char>, Seq<char>)> {
        match self {
            PreambleView::Arm(_) => seq![],
            PreambleView::X86(preamble) => preamble.variables(),
        }
    }

    /// The builder plugin that makes the image.
    pub open spec fn plugin(self) -> Seq<char> {
        match self {
            PreambleView::Arm(_) => "arm"@,
            PreambleView::X86(_) => "virtualbox-iso"@,
        }
    }

    /// The keys and values of the source block.
    pub open spec fn values(self) -> Seq<(Seq<char>, Seq<char>)> {
        match self {
            PreambleView::Arm(preamble) => preamble.values(),
            PreambleView::X86(preamble) => preamble.values(),
        }
    }

    /// The beginning of a builder input file: the variables, and the source
    /// block up to its last value. The block is left open for what follows.
    pub open spec fn source_text(self) -> Seq<char> {
        variables_text(self.variables()) + "source \""@ + self.plugin() + "\" \"imagefile\" {\n"@
            + key_value_lines(self.values(), 2, 20)
    }

    /// The path or address of the base image.
    pub open spec fn filename(self) -> Seq<char> {
        match self {
            PreambleView::Arm(preamble) => preamble.file_urls[0],
            PreambleView::X86(preamble) => preamble.iso_url,
        }
    }

    /// Whether a base image was declared, so that it can be asked for.
    pub open spec fn names_base_image(self) -> bool {
        match self {
            PreambleView::Arm(preamble) => preamble.file_urls.len() > 0,
            PreambleView::X86(_) => true,
        }
    }

    /// The kind of the base image's checksum.
    pub open spec fn checksum_type(self) -> Seq<char> {
        match self {
            PreambleView::Arm(preamble) => preamble.file_checksum_type,
            PreambleView::X86(preamble) => preamble.iso_checksum_type,
        }
    }

    /// The preseed file that is served to the installer, if there is one.
    pub open spec fn preseed_file(self) -> Seq<char> {
        match self {
            PreambleView::Arm(_) => Seq::<char>::empty(),
            PreambleView::X86(preamble) => preamble.preseed_file,
        }
    }

    /// The settings after a base image declaration was read.
    pub open spec fn with_base_image(self, line: Seq<char>) -> PreambleView {
        match self {
            PreambleView::Arm(preamble) => PreambleView::Arm(preamble.with_base_image(line)),
            PreambleView::X86(preamble) => PreambleView::X86(preamble.with_base_image(line)),
        }
    }

    /// The settings after the base image was moved to another path.
    pub open spec fn with_filepath(self, path: Seq<char>) -> PreambleView {
        match self {
            PreambleView::Arm(preamble) => PreambleView::Arm(preamble.with_filepath(path)),
            PreambleView::X86(preamble) => PreambleView::X86(
                X86PreambleView { iso_url: path, ..preamble },
            ),
        }
    }

    /// The settings with the given checksum of the base image.
    pub open spec fn with_checksum(self, checksum: Seq<char>) -> PreambleView {
        match self {
            PreambleView::Arm(preamble) => PreambleView::Arm(
                ArmPreambleView { file_checksum_url: checksum, ..preamble },
            ),
            PreambleView::X86(preamble) => PreambleView::X86(
                X86PreambleView { iso_checksum: checksum, ..preamble },
            ),
        }
    }

    /// The settings with the given preseed file, which only x86 images use.
    pub open spec fn with_preseed_file(self, path: Seq<char>) -> PreambleView {
        match self {
            PreambleView::Arm(preamble) => self,
            PreambleView::X86(preamble) => PreambleView::X86(
                X86PreambleView { preseed_file: path, ..preamble },
            ),
        }
    }
}

impl View for Preamble {
    type V = PreambleView;

    open spec fn view(&self) -> PreambleView {
        match self {
            Preamble::Arm(preamble) => PreambleView::Arm(preamble@),
            Preamble::X86(preamble) => PreambleView::X86(preamble@),
        }
    }
}

impl Preamble {
    pub fn get_variables(&self) -> (vec: Vec<(String, String, String)>)
        ensures
            triples(vec@) == self@.variables(),
    {
        match self {
            Preamble::Arm(_) => {
                let vec: Vec<(String, String, String)> = Vec::new();
                assert(triples(vec@) =~= self@.variables());
                vec
            },
            Preamble::X86(preamble) => {
                let vec = preamble.get_variables();
                assert(triples(vec@) =~= self@.variables());
                vec
            },
        }
    }

    pub fn get_packer_plugin(&self) -> (plugin: String)
        ensures
            plugin@ == self@.plugin(),
    {
        match self {
            Preamble::Arm(preamble) => preamble.get_packer_plugin(),
            Preamble::X86(preamble) => preamble.get_packer_plugin(),
        }
    }

    pub fn get_values(&self) -> (fields: Vec<(&'static str, String)>)
        ensures
            pairs(fields@) == self@.values(),
    {
        match self {
            Preamble::Arm(preamble) => preamble.get_values(),
            Preamble::X86(preamble) => preamble.get_values(),
        }
    }

    pub fn to_pkr_hcl(&self) -> (text: String)
        ensures
            text@ == self@.source_text(),
    {
        let mut builder = builder_new();
        let variables = self.get_variables();
        let mut i: usize = 0;
        while i < variables.len()
            invariant
                i <= variables.len(),
                builder_is_text(builder),
                builder_text(builder) == variables_text(triples(variables@).take(i as int)),
            decreases variables.len() - i,
        {
            let ghost before = builder_text(builder);
            builder_append(&mut builder, "variable \"");
            builder_append(&mut builder, variables[i].0.as_str());
            builder_append(&mut builder, "\" {\n");
            builder_append(&mut builder, "  type    = ");
            builder_append(&mut builder, variables[i].1.as_str());
            builder_append(&mut builder, "\n  default = \"");
            builder_append(&mut builder, variables[i].2.as_str());
            builder_append(&mut builder, "\"\n}\n");
            proof {
                let next = triples(variables@).take(i + 1);
                assert(next.drop_last() =~= triples(variables@).take(i as int));
                assert(next.last() == (
                    variables@[i as int].0@,
                    variables@[i as int].1@,
                    variables@[i as int].2@,
                ));
                assert(builder_text(builder) =~= before + variable_text(next.last()));
            }
            i += 1;
        }
        assert(triples(variables@).take(i as int) =~= triples(variables@));
        builder_append(&mut builder, "source \"");
        let plugin = self.get_packer_plugin();
        builder_append(&mut builder, plugin.as_str());
        builder_append(&mut builder, "\" \"imagefile\" {\n");
        let values = self.get_values();
        append_key_values(&mut builder, &values, 2, 20);
        assert(builder_text(builder) =~= self@.source_text());
        finish(builder)
    }

    /// Reads a base image declaration. A line of more than two words, each two
    /// a space apart, is refused and changes nothing.
    pub fn parse_base_image(&mut self, line: &str) -> (r: Result<(), &'static str>)
        ensures
            match r {
                Ok(_) => {
                    &&& crate::text::pieces(line@, ' ').len() <= 2
                    &&& final(self)@ == old(self)@.with_base_image(line@)
                },
                Err(message) => {
                    &&& crate::text::pieces(line@, ' ').len() > 2
                    &&& message@ == "Could not parse Baseimage"@
                    &&& *final(self) == *old(self)
                },
            },
    {
        match self {
            Preamble::Arm(preamble) => preamble.parse_base_image(line),
            Preamble::X86(preamble) => preamble.parse_base_image(line),
        }
    }

    /// Whether a base image was declared, so that it can be asked for.
    pub fn has_base_image(&self) -> (has: bool)
        ensures
            has == self@.names_base_image(),
    {
        match self {
            Preamble::Arm(preamble) => preamble.has_base_image(),
            Preamble::X86(_) => true,
        }
    }

    pub fn get_filename(&self) -> (name: &str)
        requires
            self@.names_base_image(),
        ensures
            name@ == self@.filename(),
    {
        match self {
            Preamble::Arm(preamble) => preamble.get_filename(),
            Preamble::X86(preamble) => preamble.get_filename(),
        }
    }

    pub fn set_filepath(&mut self, path: &str)
        requires
            old(self)@.names_base_image(),
        ensures
            final(self)@ == old(self)@.with_filepath(path@),
    {
        match self {
            Preamble::Arm(preamble) => preamble.set_filepath(path),
            Preamble::X86(preamble) => preamble.set_filepath(path),
        }
    }

    pub fn get_checksum_type(&self) -> (kind: String)
        ensures
            kind@ == self@.checksum_type(),
    {
        match self {
            Preamble::Arm(preamble) => preamble.get_checksum_type(),
            Preamble::X86(preamble) => preamble.get_checksum_type(),
        }
    }

    pub fn set_checksum(&mut self, checksum: String)
        ensures
            final(self)@ == old(self)@.with_checksum(checksum@),
    {
        match self {
            Preamble::Arm(preamble) => preamble.set_checksum(checksum),
            Preamble::X86(preamble) => preamble.set_checksum(checksum),
        }
    }

    pub fn get_preseed_file(&self) -> (path: String)
        ensures
            path@ == self@.preseed_file(),
    {
        match self {
            Preamble::Arm(preamble) => preamble.get_preseed_file(),
            Preamble::X86(preamble) => preamble.get_preseed_file(),
        }
    }

    pub fn set_preseed_file(&mut self, path: String)
        ensures
            final(self)@ == old(self)@.with_preseed_file(path@),
    {
        match self {
            Preamble::Arm(preamble) => preamble.set_preseed_file(path),
            Preamble::X86(preamble) => preamble.set_preseed_file(path),
        }
    }
}

} // verus!
