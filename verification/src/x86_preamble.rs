use crate::text::{decimal, pieces, render_usize, split_char, texts};
use crate::utils::{get_random_name, list_text, pairs, quote, quoted, vec_to_string};
use vstd::prelude::*;

verus! {

/// The settings of the builder for x86 images: the virtual machine in which
/// the image is installed, and where its installation medium comes from.
#[derive(Debug)]
pub struct X86Preamble {
    pub boot_command: Vec<String>,
    pub boot_wait: String,
    pub disk_size: usize,
    pub guest_additions_mode: String,
    pub guest_os_type: String,
    pub http_directory: String,
    pub headless: bool,
    pub iso_checksum: String,
    pub iso_checksum_type: String,
    pub iso_url: String,
    pub shutdown_command: String,
    pub ssh_username: String,
    pub ssh_password: String,
    pub ssh_wait_timeout: String,
    pub vm_name: String,
    pub preseed_file: String,
    pub output_directory: String,
}

/// What the settings hold.
pub struct X86PreambleView {
    pub boot_command: Seq<Seq<char>>,
    pub boot_wait: Seq<char>,
    pub disk_size: usize,
    pub guest_additions_mode: Seq<char>,
    pub guest_os_type: Seq<char>,
    pub http_directory: Seq<char>,
    pub headless: bool,
    pub iso_checksum: Seq<char>,
    pub iso_checksum_type: Seq<char>,
    pub iso_url: Seq<char>,
    pub shutdown_command: Seq<char>,
    pub ssh_username: Seq<char>,
    pub ssh_password: Seq<char>,
    pub ssh_wait_timeout: Seq<char>,
    pub vm_name: Seq<char>,
    pub preseed_file: Seq<char>,
    pub output_directory: Seq<char>,
}

impl View for X86Preamble {
    type V = X86PreambleView;

    open spec fn view(&self) -> X86PreambleView {
        X86PreambleView {
            boot_command: texts(self.boot_command@),
            boot_wait: self.boot_wait@,
            disk_size: self.disk_size,
            guest_additions_mode: self.guest_additions_mode@,
            guest_os_type: self.guest_os_type@,
            http_directory: self.http_directory@,
            headless: self.headless,
            iso_checksum: self.iso_checksum@,
            iso_checksum_type: self.iso_checksum_type@,
            iso_url: self.iso_url@,
            shutdown_command: self.shutdown_command@,
            ssh_username: self.ssh_username@,
            ssh_password: self.ssh_password@,
            ssh_wait_timeout: self.ssh_wait_timeout@,
            vm_name: self.vm_name@,
            preseed_file: self.preseed_file@,
            output_directory: self.output_directory@,
        }
    }
}

/// How a flag is written in a builder input file.
pub open spec fn flag_text(flag: bool) -> Seq<char> {
    if flag {
        "true"@
    } else {
        "false"@
    }
}

impl X86PreambleView {
    /// The settings before a recipe was read, for a machine of the given
    /// name.
    pub open spec fn fresh(vm_name: Seq<char>) -> X86PreambleView {
        X86PreambleView {
            boot_command: Seq::<Seq<char>>::empty(),
            boot_wait: "30s"@,
            disk_size: 8192,
            guest_additions_mode: "disable"@,
            guest_os_type: "Linux26_64"@,
            headless: true,
            http_directory: "http"@,
            iso_checksum: Seq::<char>::empty(),
            iso_checksum_type: "sha256"@,
            iso_url: Seq::<char>::empty(),
            shutdown_command: "echo 'vagrant' | poweroff"@,
            ssh_username: "root"@,
            ssh_password: "alpine"@,
            ssh_wait_timeout: "1000s"@,
            vm_name,
            preseed_file: Seq::<char>::empty(),
            output_directory: "output"@,
        }
    }

    /// The settings after a base image declaration was read: the medium and,
    /// where the line names it, the kind of its checksum, which is sha256
    /// otherwise. The checksum itself is cleared.
    pub open spec fn with_base_image(self, line: Seq<char>) -> X86PreambleView {
        let parts = pieces(line, ' ');
        X86PreambleView {
            iso_url: parts[0],
            iso_checksum_type: if parts.len() == 2 {
                parts[1]
            } else {
                "sha256"@
            },
            iso_checksum: Seq::<char>::empty(),
            ..self
        }
    }

    /// The variables that the builder input file declares: the machine's name.
    pub open spec fn variables(self) -> Seq<(Seq<char>, Seq<char>, Seq<char>)> {
        seq![("vmname"@, "string"@, self.vm_name)]
    }

    /// The keys and values that stand before the directory of the preseed
    /// file.
    pub open spec fn first_values(self) -> Seq<(Seq<char>, Seq<char>)> {
        seq![
            ("boot_command"@, list_text(self.boot_command, true)),
            ("boot_wait"@, quoted(self.boot_wait)),
            ("disk_size"@, decimal(self.disk_size as nat)),
            ("guest_additions_mode"@, quoted(self.guest_additions_mode)),
            ("guest_os_type"@, quoted(self.guest_os_type)),
            ("headless"@, flag_text(self.headless)),
        ]
    }

    /// The keys and values that stand behind the directory of the preseed
    /// file.
    pub open spec fn last_values(self) -> Seq<(Seq<char>, Seq<char>)> {
        seq![
            ("iso_checksum"@, quoted(self.iso_checksum_type + ":"@ + self.iso_checksum)),
            ("iso_url"@, quoted(self.iso_url)),
            ("shutdown_command"@, quoted(self.shutdown_command)),
            ("ssh_password"@, quoted(self.ssh_password)),
            ("ssh_username"@, quoted(self.ssh_username)),
            ("ssh_wait_timeout"@, quoted(self.ssh_wait_timeout)),
            ("vm_name"@, quoted(self.vm_name)),
            ("output_directory"@, quoted(self.output_directory)),
        ]
    }

    /// The keys and values of the source block in a builder input file. The
    /// directory from which the preseed file is served is named only where
    /// there is a preseed file.
    pub open spec fn values(self) -> Seq<(Seq<char>, Seq<char>)> {
        if self.preseed_file.len() > 0 {
            self.first_values() + seq![("http_directory"@, quoted(self.http_directory))]
                + self.last_values()
        } else {
            self.first_values() + self.last_values()
        }
    }

    /// A base image declaration names the medium and may name the kind of its
    /// checksum: one word or two, with one space between them.
    pub open spec fn accepts(line: Seq<char>) -> bool {
        pieces(line, ' ').len() <= 2
    }

}

impl X86Preamble {
    /// The settings with the given name for the machine.
    pub fn with_vm_name(vm_name: String) -> (r: Self)
        ensures
            r@ == X86PreambleView::fresh(vm_name@),
    {
        let boot_command: Vec<String> = Vec::new();
        assert(texts(boot_command@) =~= Seq::<Seq<char>>::empty());
        X86Preamble {
            boot_command,
            boot_wait: String::from_str("30s"),
            disk_size: 8192,
            guest_additions_mode: String::from_str("disable"),
            guest_os_type: String::from_str("Linux26_64"),
            headless: true,
            http_directory: String::from_str("http"),
            iso_checksum: String::new(),
            iso_checksum_type: String::from_str("sha256"),
            iso_url: String::new(),
            shutdown_command: String::from_str("echo 'vagrant' | poweroff"),
            ssh_username: String::from_str("root"),
            ssh_password: String::from_str("alpine"),
            ssh_wait_timeout: String::from_str("1000s"),
            vm_name,
            preseed_file: String::new(),
            output_directory: String::from_str("output"),
        }
    }

    pub fn new() -> (r: Self)
        ensures
            r@ == X86PreambleView::fresh(r@.vm_name),
    {
        Self::with_vm_name(get_random_name())
    }

    pub fn set_ssh_username(&mut self, str: String)
        ensures
            final(self)@ == (X86PreambleView { ssh_username: str@, ..old(self)@ }),
    {
        self.ssh_username = str;
    }

    pub fn set_ssh_password(&mut self, str: String)
        ensures
            final(self)@ == (X86PreambleView { ssh_password: str@, ..old(self)@ }),
    {
        self.ssh_password = str;
    }

    pub fn set_boot_wait(&mut self, str: String)
        ensures
            final(self)@ == (X86PreambleView { boot_wait: str@, ..old(self)@ }),
    {
        self.boot_wait = str;
    }

    pub fn set_headless(&mut self, value: bool)
        ensures
            final(self)@ == (X86PreambleView { headless: value, ..old(self)@ }),
    {
        self.headless = value;
    }

    pub fn set_shutdown_command(&mut self, str: String)
        ensures
            final(self)@ == (X86PreambleView { shutdown_command: str@, ..old(self)@ }),
    {
        self.shutdown_command = str;
    }

    pub fn set_guest_os_type(&mut self, str: String)
        ensures
            final(self)@ == (X86PreambleView { guest_os_type: str@, ..old(self)@ }),
    {
        self.guest_os_type = str;
    }

    pub fn get_variables(&self) -> (vec: Vec<(String, String, String)>)
        ensures
            vec@.len() == 1,
            (vec@[0].0@, vec@[0].1@, vec@[0].2@) == self@.variables()[0],
    {
        let mut vec: Vec<(String, String, String)> = Vec::new();
        vec.push((String::from_str("vmname"), String::from_str("string"), self.vm_name.clone()));
        vec
    }

    pub fn get_packer_plugin(&self) -> (plugin: String)
        ensures
            plugin@ == "virtualbox-iso"@,
    {
        String::from_str("virtualbox-iso")
    }

    pub fn get_values(&self) -> (fields: Vec<(&'static str, String)>)
        ensures
            pairs(fields@) == self@.values(),
    {
        let mut fields: Vec<(&'static str, String)> = Vec::new();
        fields.push(("boot_command", vec_to_string(self.boot_command.as_slice(), true)));
        fields.push(("boot_wait", quote(self.boot_wait.as_str())));
        fields.push(("disk_size", render_usize(self.disk_size)));
        fields.push(("guest_additions_mode", quote(self.guest_additions_mode.as_str())));
        fields.push(("guest_os_type", quote(self.guest_os_type.as_str())));
        let headless = if self.headless {
            String::from_str("true")
        } else {
            String::from_str("false")
        };
        fields.push(("headless", headless));
        assert(pairs(fields@) =~= self@.first_values());
        if !self.preseed_file.as_str().is_empty() {
            fields.push(("http_directory", quote(self.http_directory.as_str())));
        }
        let ghost before = pairs(fields@);
        let mut checksum = self.iso_checksum_type.clone();
        checksum.append(":");
        checksum.append(self.iso_checksum.as_str());
        fields.push(("iso_checksum", quote(checksum.as_str())));
        fields.push(("iso_url", quote(self.iso_url.as_str())));
        fields.push(("shutdown_command", quote(self.shutdown_command.as_str())));
        fields.push(("ssh_password", quote(self.ssh_password.as_str())));
        fields.push(("ssh_username", quote(self.ssh_username.as_str())));
        fields.push(("ssh_wait_timeout", quote(self.ssh_wait_timeout.as_str())));
        fields.push(("vm_name", quote(self.vm_name.as_str())));
        fields.push(("output_directory", quote(self.output_directory.as_str())));
        assert(pairs(fields@) =~= before + self@.last_values());
        assert(pairs(fields@) =~= self@.values());
        fields
    }

    /// Reads a base image declaration. A line of more than two words, each two
    /// a space apart, is refused and changes nothing.
    pub fn parse_base_image(&mut self, line: &str) -> (r: Result<(), &'static str>)
        ensures
            match r {
                Ok(_) => {
                    &&& X86PreambleView::accepts(line@)
                    &&& final(self)@ == old(self)@.with_base_image(line@)
                },
                Err(message) => {
                    &&& !X86PreambleView::accepts(line@)
                    &&& message@ == "Could not parse Baseimage"@
                    &&& *final(self) == *old(self)
                },
            },
    {
        let parts = split_char(line, ' ');
        proof {
            crate::text::lemma_pieces_len(line@, ' ');
            assert(texts(parts@).len() == parts@.len());
        }
        if parts.len() <= 2 {
            let mut iso_checksum_type = String::from_str("sha256");
            if parts.len() == 2 {
                iso_checksum_type = parts[1].clone();
            }
            assert(texts(parts@)[0] == parts@[0]@);
            self.iso_url = parts[0].clone();
            self.iso_checksum_type = iso_checksum_type;
            self.iso_checksum = String::new();
            return Ok(());
        }
        Err("Could not parse Baseimage")
    }

    pub fn get_filename(&self) -> (name: &str)
        ensures
            name@ == self@.iso_url,
    {
        self.iso_url.as_str()
    }

    pub fn set_filepath(&mut self, path: &str)
        ensures
            final(self)@ == (X86PreambleView { iso_url: path@, ..old(self)@ }),
    {
        self.iso_url = String::from_str(path);
    }

    pub fn get_checksum_type(&self) -> (kind: String)
        ensures
            kind@ == self@.iso_checksum_type,
    {
        self.iso_checksum_type.clone()
    }

    pub fn set_checksum(&mut self, checksum: String)
        ensures
            final(self)@ == (X86PreambleView { iso_checksum: checksum@, ..old(self)@ }),
    {
        self.iso_checksum = checksum;
    }

    pub fn get_preseed_file(&self) -> (path: String)
        ensures
            path@ == self@.preseed_file,
    {
        self.preseed_file.clone()
    }

    pub fn set_preseed_file(&mut self, path: String)
        ensures
            final(self)@ == (X86PreambleView { preseed_file: path@, ..old(self)@ }),
    {
        self.preseed_file = path;
    }
}

impl Default for X86Preamble {
    fn default() -> (r: Self)
        ensures
            r@ == X86PreambleView::fresh(r@.vm_name),
    {
        Self::new()
    }
}

} // verus!
