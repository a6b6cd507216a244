use crate::text::texts;
use crate::utils::{
    add_indented_aligned_key_value, builder_new, builder_text, finish, ident_and_append,
    key_value_line, list_text, spaces, vec_to_string,
};
use vstd::prelude::*;

verus! {

/// The kinds of step that run after an image was built.
#[derive(Debug, Eq, PartialEq, Clone, Copy, Structural)]
pub enum Types {
    LocalShell,
}

/// One step that runs on the building machine after an image was built.
#[derive(Debug)]
pub struct PostProvisioner {
    pub(crate) provisioner: Types,
    pub(crate) command: Vec<String>,
}

/// What such a step holds.
pub struct PostProvisionerView {
    pub provisioner: Types,
    pub command: Seq<Seq<char>>,
}

impl PostProvisionerView {
    /// The step's block in a builder input file.
    pub open spec fn block(self) -> Seq<char> {
        spaces(2) + "post-processor \"shell-local\" {\n"@ + key_value_line(
            4,
            7,
            "inline"@,
            list_text(self.command, true),
        ) + spaces(2) + "}\n"@
    }
}

impl View for PostProvisioner {
    type V = PostProvisionerView;

    closed spec fn view(&self) -> PostProvisionerView {
        PostProvisionerView { provisioner: self.provisioner, command: texts(self.command@) }
    }
}

/// What the steps of a list hold.
pub open spec fn post_provisioner_views(list: Seq<PostProvisioner>) -> Seq<PostProvisionerView> {
    Seq::new(list.len(), |i: int| list[i]@)
}

impl PostProvisioner {
    pub fn new(provisioner: Types, command: &str) -> (r: Self)
        ensures
            r@ == (PostProvisionerView { provisioner, command: seq![command@] }),
    {
        let mut vec: Vec<String> = Vec::new();
        vec.push(String::from_str(command));
        let r = Self { provisioner, command: vec };
        assert(r@.command =~= seq![command@]);
        r
    }

    /// A step of several shell lines.
    pub fn with_lines(provisioner: Types, command: Vec<String>) -> (r: Self)
        ensures
            r@ == (PostProvisionerView { provisioner, command: texts(command@) }),
    {
        Self { provisioner, command }
    }

    pub fn to_pkr_hcl(&self) -> (block: String)
        ensures
            block@ == self@.block(),
    {
        match self.provisioner {
            Types::LocalShell => self.get_localshell(),
        }
    }

    fn get_localshell(&self) -> (block: String)
        ensures
            block@ == self@.block(),
    {
        let mut builder = builder_new();
        ident_and_append(&mut builder, "post-processor \"shell-local\" {\n", 2);
        let inline = vec_to_string(self.command.as_slice(), true);
        add_indented_aligned_key_value(&mut builder, 4, 7, "inline", inline.as_str());
        ident_and_append(&mut builder, "}\n", 2);
        assert(builder_text(builder) =~= self@.block());
        finish(builder)
    }
}

} // verus!
