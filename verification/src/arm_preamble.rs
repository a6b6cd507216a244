use crate::text::{pieces, split_char, texts};
use crate::utils::{list_text, pairs, quote, quoted, vec_to_string};
use vstd::prelude::*;

verus! {

/// The settings of the builder for ARM images: how the image is made and where
/// its base image comes from.
#[derive(Debug)]
pub struct ArmPreamble {
    image_build_method: String,
    image_path: String,
    image_size: String,
    image_type: String,
    image_chroot_env: Vec<String>,
    file_checksum_type: String,
    file_checksum_url: String,
    file_target_extension: String,
    file_urls: Vec<String>,
}

/// What the settings hold.
pub struct ArmPreambleView {
    pub image_build_method: Seq<char>,
    pub image_path: Seq<char>,
    pub image_size: Seq<char>,
    pub image_type: Seq<char>,
    pub image_chroot_env: Seq<Seq<char>>,
    pub file_checksum_type: Seq<char>,
    pub file_checksum_url: Seq<char>,
    pub file_target_extension: Seq<char>,
    pub file_urls: Seq<Seq<char>>,
}

/// What stands behind the last dot of a path, or the whole path where it has
/// no dot.
pub open spec fn extension_of(path: Seq<char>) -> Seq<char> {
    pieces(path, '.').last()
}

impl ArmPreambleView {
    /// The settings before a recipe was read.
    pub open spec fn fresh() -> ArmPreambleView {
        ArmPreambleView {
            image_build_method: "reuse"@,
            image_path: "generated.img"@,
            image_size: "2G"@,
            image_type: "dos"@,
            image_chroot_env: seq![
                "PATH=/usr/local/bin:/usr/local/sbin:/usr/bin:/usr/sbin:/bin:/sbin"@,
            ],
            file_checksum_type: Seq::<char>::empty(),
            file_checksum_url: Seq::<char>::empty(),
            file_target_extension: Seq::<char>::empty(),
            file_urls: Seq::<Seq<char>>::empty(),
        }
    }

    /// The keys and values of the source block in a builder input file.
    pub open spec fn values(self) -> Seq<(Seq<char>, Seq<char>)> {
        seq![
            ("image_build_method"@, quoted(self.image_build_method)),
            ("image_path"@, quoted(self.image_path)),
            ("image_size"@, quoted(self.image_size)),
            ("image_type"@, quoted(self.image_type)),
            ("image_chroot_env"@, list_text(self.image_chroot_env, true)),
            ("file_checksum_type"@, quoted(self.file_checksum_type)),
            ("file_checksum_url"@, quoted(self.file_checksum_url)),
            ("file_target_extension"@, quoted(self.file_target_extension)),
            ("file_urls"@, list_text(self.file_urls, true)),
        ]
    }

    /// A base image declaration names the image and may name the kind of its
    /// checksum: one word or two, with one space between them.
    pub open spec fn accepts(line: Seq<char>) -> bool {
        pieces(line, ' ').len() <= 2
    }

    /// The settings after a base image declaration was read. The checksum is
    /// of the kind sha256 where the line names none, and is looked for beside
    /// the image.
    pub open spec fn with_base_image(self, line: Seq<char>) -> ArmPreambleView {
        let parts = pieces(line, ' ');
        let kind = if parts.len() == 2 {
            parts[1]
        } else {
            "sha256"@
        };
        ArmPreambleView {
            file_checksum_type: kind,
            file_checksum_url: parts[0] + "."@ + kind,
            file_target_extension: extension_of(parts[0]),
            file_urls: seq![parts[0]],
            ..self
        }
    }

    /// The settings after the base image was moved to another path.
    pub open spec fn with_filepath(self, path: Seq<char>) -> ArmPreambleView {
        ArmPreambleView {
            file_urls: self.file_urls.update(0, path),
            file_target_extension: extension_of(path),
            file_checksum_url: path + "."@ + self.file_checksum_type,
            ..self
        }
    }
}

impl View for ArmPreamble {
    type V = ArmPreambleView;

    closed spec fn view(&self) -> ArmPreambleView {
        ArmPreambleView {
            image_build_method: self.image_build_method@,
            image_path: self.image_path@,
            image_size: self.image_size@,
            image_type: self.image_type@,
            image_chroot_env: texts(self.image_chroot_env@),
            file_checksum_type: self.file_checksum_type@,
            file_checksum_url: self.file_checksum_url@,
            file_target_extension: self.file_target_extension@,
            file_urls: texts(self.file_urls@),
        }
    }
}

/// What stands behind the last dot of a path.
pub fn extension(path: &str) -> (r: String)
    ensures
        r@ == extension_of(path@),
{
    let parts = split_char(path, '.');
    proof {
        crate::text::lemma_pieces_len(path@, '.');
        assert(texts(parts@).len() == parts@.len());
    }
    let r = parts[parts.len() - 1].clone();
    assert(texts(parts@).last() == parts@[parts.len() - 1]@);
    r
}

impl ArmPreamble {
    pub fn new() -> (r: Self)
        ensures
            r@ == ArmPreambleView::fresh(),
    {
        let mut vec: Vec<String> = Vec::new();
        vec.push(String::from_str("PATH=/usr/local/bin:/usr/local/sbin:/usr/bin:/usr/sbin:/bin:/sbin"));
        let r = ArmPreamble {
            image_build_method: String::from_str("reuse"),
            image_path: String::from_str("generated.img"),
            image_size: String::from_str("2G"),
            image_type: String::from_str("dos"),
            image_chroot_env: vec,
            file_checksum_type: String::new(),
            file_checksum_url: String::new(),
            file_target_extension: String::new(),
            file_urls: Vec::new(),
        };
        assert(r@.image_chroot_env =~= ArmPreambleView::fresh().image_chroot_env);
        assert(r@.file_urls =~= ArmPreambleView::fresh().file_urls);
        r
    }

    pub fn get_packer_plugin(&self) -> (plugin: String)
        ensures
            plugin@ == "arm"@,
    {
        String::from_str("arm")
    }

    pub fn get_values(&self) -> (fields: Vec<(&'static str, String)>)
        ensures
            pairs(fields@) == self@.values(),
    {
        let mut fields: Vec<(&'static str, String)> = Vec::new();
        fields.push(("image_build_method", quote(self.image_build_method.as_str())));
        fields.push(("image_path", quote(self.image_path.as_str())));
        fields.push(("image_size", quote(self.image_size.as_str())));
        fields.push(("image_type", quote(self.image_type.as_str())));
        fields.push(("image_chroot_env", vec_to_string(self.image_chroot_env.as_slice(), true)));
        fields.push(("file_checksum_type", quote(self.file_checksum_type.as_str())));
        fields.push(("file_checksum_url", quote(self.file_checksum_url.as_str())));
        fields.push(("file_target_extension", quote(self.file_target_extension.as_str())));
        fields.push(("file_urls", vec_to_string(self.file_urls.as_slice(), true)));
        assert(pairs(fields@) =~= self@.values());
        fields
    }

    /// Reads a base image declaration. A line of more than two words, each two
    /// a space apart, is refused and changes nothing.
    pub fn parse_base_image(&mut self, line: &str) -> (r: Result<(), &'static str>)
        ensures
            match r {
                Ok(_) => {
                    &&& ArmPreambleView::accepts(line@)
                    &&& final(self)@ == old(self)@.with_base_image(line@)
                },
                Err(message) => {
                    &&& !ArmPreambleView::accepts(line@)
                    &&& message@ == "Could not parse Baseimage"@
                    &&& *final(self) == *old(self)
                },
            },
    {
        let parts = split_char(line, ' ');
        proof {
            crate::text::lemma_pieces_len(line@, ' ');
            assert(texts(parts@).len() == parts@.len());
        }
        if parts.len() <= 2 {
            let mut file_checksum_type = String::from_str("sha256");
            if parts.len() == 2 {
                file_checksum_type = parts[1].clone();
            }
            assert(texts(parts@)[0] == parts@[0]@);
            let mut file_urls: Vec<String> = Vec::new();
            file_urls.push(parts[0].clone());
            let mut file_checksum_url = parts[0].clone();
            file_checksum_url.append(".");
            file_checksum_url.append(file_checksum_type.as_str());
            self.file_target_extension = extension(parts[0].as_str());
            self.file_checksum_type = file_checksum_type;
            self.file_checksum_url = file_checksum_url;
            self.file_urls = file_urls;
            assert(self@.file_urls =~= seq![parts@[0]@]);
            Ok(())
        } else {
            Err("Could not parse Baseimage")
        }
    }

    /// Whether a base image was declared.
    pub fn has_base_image(&self) -> (has: bool)
        ensures
            has == (self@.file_urls.len() > 0),
    {
        assert(texts(self.file_urls@).len() == self.file_urls@.len());
        self.file_urls.len() > 0
    }

    pub fn get_filename(&self) -> (name: &str)
        requires
            self@.file_urls.len() > 0,
        ensures
            name@ == self@.file_urls[0],
    {
        assert(texts(self.file_urls@).len() == self.file_urls@.len());
        self.file_urls[0].as_str()
    }

    pub fn set_filepath(&mut self, path: &str)
        requires
            old(self)@.file_urls.len() > 0,
        ensures
            final(self)@ == old(self)@.with_filepath(path@),
    {
        assert(texts(self.file_urls@).len() == self.file_urls@.len());
        self.file_urls.set(0, String::from_str(path));
        self.file_target_extension = extension(path);
        let mut url = String::from_str(path);
        url.append(".");
        url.append(self.file_checksum_type.as_str());
        self.file_checksum_url = url;
        assert(self@.file_urls =~= old(self)@.file_urls.update(0, path@));
    }

    pub fn get_checksum_type(&self) -> (kind: String)
        ensures
            kind@ == self@.file_checksum_type,
    {
        self.file_checksum_type.clone()
    }

    pub fn set_checksum(&mut self, checksum: String)
        ensures
            final(self)@ == (ArmPreambleView { file_checksum_url: checksum@, ..old(self)@ }),
    {
        self.file_checksum_url = checksum;
    }

    /// ARM images are built without a preseed file.
    pub fn get_preseed_file(&self) -> (path: String)
        ensures
            path@ == Seq::<char>::empty(),
    {
        String::new()
    }

    pub fn set_preseed_file(&mut self, _path: String)
        ensures
            final(self)@ == old(self)@,
    {
    }
}

impl Default for ArmPreamble {
    fn default() -> (r: Self)
        ensures
            r@ == ArmPreambleView::fresh(),
    {
        Self::new()
    }
}

} // verus!
