//! The build descriptor: schema extraction from a parsed document,
//! semantic validation, derived fields and read-only accessors.
use vstd::prelude::*;

use crate::error::ConfigError;
use crate::paths::{join_path, join_spec, parent_of, parent_spec};
use crate::strutil::str_eq;
use crate::toml_doc::{
    parse_toml_document, table_get, table_map, toml_parses, toml_table_of, value_bool_of,
    value_int_of, value_str_of,
};
use crate::valid_image_type;

verus! {

/// The string entry of a table under a key: absent when the key is
/// missing, and also when the key holds a value of another type.
pub open spec fn str_entry(m: Map<Seq<char>, toml::Value>, k: Seq<char>) -> Option<Seq<char>> {
    if m.contains_key(k) {
        value_str_of(m[k])
    } else {
        None
    }
}

/// The integer entry of a table under a key.
pub open spec fn int_entry(m: Map<Seq<char>, toml::Value>, k: Seq<char>) -> Option<i64> {
    if m.contains_key(k) {
        value_int_of(m[k])
    } else {
        None
    }
}

/// Whether a table matches the descriptor schema: the four string
/// fields and the version are present with the right types, the version
/// is not negative, and each optional field that is present has the
/// right type.
pub open spec fn schema_ok(m: Map<Seq<char>, toml::Value>) -> bool {
    &&& str_entry(m, "image-type"@) is Some
    &&& str_entry(m, "channel"@) is Some
    &&& str_entry(m, "timestamp"@) is Some
    &&& str_entry(m, "source"@) is Some
    &&& int_entry(m, "version"@) is Some
    &&& int_entry(m, "version"@)->0 >= 0
    &&& (m.contains_key("compress"@) ==> value_bool_of(m["compress"@]) is Some)
    &&& (m.contains_key("kernel-version"@) ==> value_str_of(m["kernel-version"@]) is Some)
    &&& (m.contains_key("kernel-id"@) ==> value_str_of(m["kernel-id"@]) is Some)
    &&& (m.contains_key("realmfs-name"@) ==> value_str_of(m["realmfs-name"@]) is Some)
}

/// View of an optional owned string.
pub open spec fn opt_str_view(o: Option<String>) -> Option<Seq<char>> {
    match o {
        Some(s) => Some(s@),
        None => None,
    }
}

/// The composite image name: the image type alone, or the image type
/// and the kernel version joined by one `-`.
pub open spec fn img_name_spec(itype: Seq<char>, kver: Option<Seq<char>>) -> Seq<char> {
    match kver {
        Some(v) => itype + seq!['-'] + v,
        None => itype,
    }
}

/// The directory the descriptor was loaded from: the given path itself
/// when it is a directory, its parent otherwise.
pub open spec fn basedir_spec(path: Seq<char>, path_is_dir: bool) -> Seq<char> {
    if path_is_dir {
        path
    } else {
        parent_spec(path)
    }
}

/// The resolved descriptor file: the conventional file name inside the
/// given path when it is a directory, the path itself otherwise.
pub open spec fn descriptor_path_spec(path: Seq<char>, path_is_dir: bool) -> Seq<char> {
    if path_is_dir {
        join_spec(path, "mkimage.conf"@)
    } else {
        path
    }
}

/// True when `e` reports a parse or schema failure of the descriptor at
/// path `p`.
pub open spec fn is_parse_err(e: ConfigError, p: Seq<char>) -> bool {
    match e {
        ConfigError::ConfigParseError { path, .. } => path@ == p,
        _ => false,
    }
}

/// Ghost image of a `BuildConfig`: every field as a plain value.
pub struct BuildConfigV {
    pub image_type: Seq<char>,
    pub channel: Seq<char>,
    pub version: u64,
    pub timestamp: Seq<char>,
    pub source: Seq<char>,
    pub compress: bool,
    pub kernel_version: Option<Seq<char>>,
    pub kernel_id: Option<Seq<char>>,
    pub realmfs_name: Option<Seq<char>>,
    pub basedir: Seq<char>,
    pub src_path: Seq<char>,
    pub img_name: Seq<char>,
}

/// Whether a config's fields are exactly the entries of the table `m`:
/// each required field its entry, `compress` false when absent, and
/// each optional field present exactly when its key is.
pub open spec fn fields_match(cv: BuildConfigV, m: Map<Seq<char>, toml::Value>) -> bool {
    &&& Some(cv.image_type) == str_entry(m, "image-type"@)
    &&& Some(cv.channel) == str_entry(m, "channel"@)
    &&& Some(cv.timestamp) == str_entry(m, "timestamp"@)
    &&& Some(cv.source) == str_entry(m, "source"@)
    &&& cv.version == int_entry(m, "version"@)->0 as u64
    &&& cv.compress == (if m.contains_key("compress"@) {
        value_bool_of(m["compress"@])->0
    } else {
        false
    })
    &&& cv.kernel_version == str_entry(m, "kernel-version"@)
    &&& cv.kernel_id == str_entry(m, "kernel-id"@)
    &&& cv.realmfs_name == str_entry(m, "realmfs-name"@)
}

/// The derived fields agree with the given ones: the source path is the
/// source string read as a path, and the image name follows the
/// composite-name rule.
pub open spec fn derived_ok(cv: BuildConfigV) -> bool {
    &&& cv.src_path == cv.source
    &&& cv.img_name == img_name_spec(cv.image_type, cv.kernel_version)
}

/// The pure validation rules on a descriptor table: an accepted image
/// type label, and a kernel version wherever the type is `kernel`.
pub open spec fn table_valid(m: Map<Seq<char>, toml::Value>) -> bool {
    &&& valid_image_type(str_entry(m, "image-type"@)->0)
    &&& (str_entry(m, "image-type"@)->0 == "kernel"@ ==> str_entry(m, "kernel-version"@) is Some)
}

/// What every `BuildConfig` that exists satisfies: the image type is
/// one of the four accepted labels, a `kernel` image carries a kernel
/// version, and the derived fields are consistent. Only the source
/// existence rule, a fact about the filesystem, is left to `validate`.
pub open spec fn config_wf(cv: BuildConfigV) -> bool {
    &&& valid_image_type(cv.image_type)
    &&& (cv.image_type == "kernel"@ ==> cv.kernel_version is Some)
    &&& derived_ok(cv)
}

/// A build descriptor; a value of this type is immutable, has passed
/// the pure validation rules (`config_wf`), and its derived fields are
/// consistent with its given ones.
#[derive(Debug)]
pub struct BuildConfig {
    image_type: String,
    channel: String,
    version: u64,
    timestamp: String,
    source: String,
    compress: bool,
    kernel_version: Option<String>,
    kernel_id: Option<String>,
    realmfs_name: Option<String>,
    basedir: String,
    src_path: String,
    img_name: String,
}

impl View for BuildConfig {
    type V = BuildConfigV;

    closed spec fn view(&self) -> BuildConfigV {
        BuildConfigV {
            image_type: self.image_type@,
            channel: self.channel@,
            version: self.version,
            timestamp: self.timestamp@,
            source: self.source@,
            compress: self.compress,
            kernel_version: opt_str_view(self.kernel_version),
            kernel_id: opt_str_view(self.kernel_id),
            realmfs_name: opt_str_view(self.realmfs_name),
            basedir: self.basedir@,
            src_path: self.src_path@,
            img_name: self.img_name@,
        }
    }
}

fn schema_err(path: &str, path_is_dir: bool, detail: &str) -> (r: ConfigError)
    ensures
        is_parse_err(r, descriptor_path_spec(path@, path_is_dir)),
{
    ConfigError::ConfigParseError {
        path: descriptor_path(path, path_is_dir),
        detail: String::from_str(detail),
    }
}

/// The path of the descriptor file that a given path stands for.
pub fn descriptor_path(path: &str, path_is_dir: bool) -> (r: String)
    ensures
        r@ == descriptor_path_spec(path@, path_is_dir),
{
    if path_is_dir {
        join_path(path, "mkimage.conf")
    } else {
        String::from_str(path)
    }
}

impl BuildConfig {
    #[verifier::type_invariant]
    pub open spec fn wf(self) -> bool {
        config_wf(self@)
    }

    /// Builds a config from a parsed descriptor table: succeeds exactly
    /// when the table matches the schema and the pure validation rules,
    /// and then every field of the config is the table's entry, with
    /// the derived fields computed from them and from the descriptor's
    /// location. A table that breaks a pure validation rule is refused
    /// with that rule's own error, so a config that exists has passed
    /// them.
    pub fn from_table(path: &str, path_is_dir: bool, t: &toml::map::Map<String, toml::Value>) -> (r:
        Result<BuildConfig, ConfigError>)
        ensures
            ({
                let m = table_map(*t);
                match r {
                    Ok(c) => schema_ok(m) && table_valid(m) && fields_match(c@, m) && derived_ok(c@)
                        && c@.basedir == basedir_spec(path@, path_is_dir),
                    Err(e) => match e {
                        ConfigError::ConfigParseError { .. } => !schema_ok(m) && is_parse_err(
                            e,
                            descriptor_path_spec(path@, path_is_dir),
                        ),
                        ConfigError::InvalidImageType(s) => schema_ok(m) && !valid_image_type(
                            str_entry(m, "image-type"@)->0,
                        ) && s@ == str_entry(m, "image-type"@)->0,
                        ConfigError::MissingKernelVersion => schema_ok(m) && valid_image_type(
                            str_entry(m, "image-type"@)->0,
                        ) && str_entry(m, "image-type"@)->0 == "kernel"@ && str_entry(
                            m,
                            "kernel-version"@,
                        ) is None,
                        _ => false,
                    },
                }
            }),
    {
        let image_type = match table_get(t, "image-type") {
            Some(v) => match v.as_str() {
                Some(s) => String::from_str(s),
                None => {
                    return Err(schema_err(path, path_is_dir, "field 'image-type' must be a string"));
                },
            },
            None => {
                return Err(schema_err(path, path_is_dir, "missing field 'image-type'"));
            },
        };
        let channel = match table_get(t, "channel") {
            Some(v) => match v.as_str() {
                Some(s) => String::from_str(s),
                None => {
                    return Err(schema_err(path, path_is_dir, "field 'channel' must be a string"));
                },
            },
            None => {
                return Err(schema_err(path, path_is_dir, "missing field 'channel'"));
            },
        };
        let timestamp = match table_get(t, "timestamp") {
            Some(v) => match v.as_str() {
                Some(s) => String::from_str(s),
                None => {
                    return Err(schema_err(path, path_is_dir, "field 'timestamp' must be a string"));
                },
            },
            None => {
                return Err(schema_err(path, path_is_dir, "missing field 'timestamp'"));
            },
        };
        let source = match table_get(t, "source") {
            Some(v) => match v.as_str() {
                Some(s) => String::from_str(s),
                None => {
                    return Err(schema_err(path, path_is_dir, "field 'source' must be a string"));
                },
            },
            None => {
                return Err(schema_err(path, path_is_dir, "missing field 'source'"));
            },
        };
        let version_signed = match table_get(t, "version") {
            Some(v) => match v.as_integer() {
                Some(n) => n,
                None => {
                    return Err(schema_err(path, path_is_dir, "field 'version' must be an integer"));
                },
            },
            None => {
                return Err(schema_err(path, path_is_dir, "missing field 'version'"));
            },
        };
        if version_signed < 0 {
            return Err(schema_err(path, path_is_dir, "field 'version' must not be negative"));
        }
        let version: u64 = version_signed as u64;
        let compress = match table_get(t, "compress") {
            Some(v) => match v.as_bool() {
                Some(b) => b,
                None => {
                    return Err(schema_err(path, path_is_dir, "field 'compress' must be a boolean"));
                },
            },
            None => false,
        };
        let kernel_version = match table_get(t, "kernel-version") {
            Some(v) => match v.as_str() {
                Some(s) => Some(String::from_str(s)),
                None => {
                    return Err(
                        schema_err(path, path_is_dir, "field 'kernel-version' must be a string"),
                    );
                },
            },
            None => None,
        };
        let kernel_id = match table_get(t, "kernel-id") {
            Some(v) => match v.as_str() {
                Some(s) => Some(String::from_str(s)),
                None => {
                    return Err(schema_err(path, path_is_dir, "field 'kernel-id' must be a string"));
                },
            },
            None => None,
        };
        let realmfs_name = match table_get(t, "realmfs-name") {
            Some(v) => match v.as_str() {
                Some(s) => Some(String::from_str(s)),
                None => {
                    return Err(
                        schema_err(path, path_is_dir, "field 'realmfs-name' must be a string"),
                    );
                },
            },
            None => None,
        };
        let it = image_type.as_str();
        let itype_ok = str_eq(it, "extra") || str_eq(it, "rootfs") || str_eq(it, "kernel")
            || str_eq(it, "realmfs");
        if !itype_ok {
            return Err(ConfigError::InvalidImageType(image_type));
        }
        if str_eq(it, "kernel") && kernel_version.is_none() {
            return Err(ConfigError::MissingKernelVersion);
        }
        let basedir = if path_is_dir {
            String::from_str(path)
        } else {
            parent_of(path)
        };
        let src_path = source.clone();
        let (kernel_version, img_name) = match kernel_version {
            Some(v) => {
                let n = image_type.clone().concat("-").concat(v.as_str());
                proof {
                    reveal_strlit("-");
                    assert(n@ =~= img_name_spec(image_type@, Some(v@)));
                }
                (Some(v), n)
            },
            None => (None, image_type.clone()),
        };
        Ok(
            BuildConfig {
                image_type,
                channel,
                version,
                timestamp,
                source,
                compress,
                kernel_version,
                kernel_id,
                realmfs_name,
                basedir,
                src_path,
                img_name,
            },
        )
    }

    /// Loads a config from the text of a descriptor found at a path:
    /// parses the text as a document, extracts the schema fields,
    /// checks the pure validation rules and derives the
    /// location-dependent fields. Success is owed exactly when the text
    /// parses, matches the schema and passes the pure rules; each
    /// failure yields its own error, a malformed or mis-typed document
    /// a parse error carrying the descriptor path.
    pub fn load(path: &str, path_is_dir: bool, content: &str) -> (r: Result<
        BuildConfig,
        ConfigError,
    >)
        ensures
            ({
                let m = toml_table_of(content@);
                match r {
                    Ok(c) => toml_parses(content@) && schema_ok(m) && table_valid(m)
                        && fields_match(c@, m) && derived_ok(c@) && c@.basedir == basedir_spec(
                        path@,
                        path_is_dir,
                    ),
                    Err(e) => match e {
                        ConfigError::ConfigParseError { .. } => (!toml_parses(content@)
                            || !schema_ok(m)) && is_parse_err(
                            e,
                            descriptor_path_spec(path@, path_is_dir),
                        ),
                        ConfigError::InvalidImageType(s) => toml_parses(content@) && schema_ok(m)
                            && !valid_image_type(str_entry(m, "image-type"@)->0) && s@ == str_entry(
                            m,
                            "image-type"@,
                        )->0,
                        ConfigError::MissingKernelVersion => toml_parses(content@) && schema_ok(m)
                            && valid_image_type(str_entry(m, "image-type"@)->0) && str_entry(
                            m,
                            "image-type"@,
                        )->0 == "kernel"@ && str_entry(m, "kernel-version"@) is None,
                        _ => false,
                    },
                }
            }),
    {
        match parse_toml_document(content) {
            Ok(table) => BuildConfig::from_table(path, path_is_dir, &table),
            Err(detail) => Err(
                ConfigError::ConfigParseError { path: descriptor_path(path, path_is_dir), detail },
            ),
        }
    }

    /// Checks the semantic rules, given whether the source names an
    /// existing regular file: the image type must be one of the four
    /// accepted labels, the source must exist, and a kernel image needs
    /// a kernel version — each violation reported as its own cause, in
    /// that order.
    pub fn validate(&self, source_is_file: bool) -> (r: Result<(), ConfigError>)
        ensures
            match r {
                Ok(()) => valid_image_type(self@.image_type) && source_is_file && (self@.image_type
                    == "kernel"@ ==> self@.kernel_version is Some),
                Err(e) => match e {
                    ConfigError::InvalidImageType(s) => !valid_image_type(self@.image_type) && s@
                        == self@.image_type,
                    ConfigError::SourceNotFound(s) => valid_image_type(self@.image_type)
                        && !source_is_file && s@ == self@.source,
                    ConfigError::MissingKernelVersion => valid_image_type(self@.image_type)
                        && source_is_file && self@.image_type == "kernel"@
                        && self@.kernel_version is None,
                    _ => false,
                },
            },
    {
        let it = self.image_type.as_str();
        let ok = str_eq(it, "extra") || str_eq(it, "rootfs") || str_eq(it, "kernel") || str_eq(
            it,
            "realmfs",
        );
        if !ok {
            return Err(ConfigError::InvalidImageType(self.image_type.clone()));
        }
        if !source_is_file {
            return Err(ConfigError::SourceNotFound(self.source.clone()));
        }
        if str_eq(it, "kernel") && self.kernel_version.is_none() {
            return Err(ConfigError::MissingKernelVersion);
        }
        Ok(())
    }

    /// The build's timestamp label.
    pub fn timestamp(&self) -> (r: &str)
        ensures
            r@ == self@.timestamp,
    {
        self.timestamp.as_str()
    }

    /// The source field read as a path.
    pub fn source(&self) -> (r: &str)
        ensures
            r@ == self@.src_path,
    {
        self.src_path.as_str()
    }

    /// A file name joined onto the directory the descriptor was loaded
    /// from; pure, and total even when the result names nothing.
    pub fn workdir_path(&self, filename: &str) -> (r: String)
        ensures
            r@ == join_spec(self@.basedir, filename@),
    {
        join_path(self.basedir.as_str(), filename)
    }

    /// The composite image name.
    pub fn img_name(&self) -> (r: &str)
        ensures
            r@ == self@.img_name,
    {
        self.img_name.as_str()
    }

    /// The kernel version field; always given on a `kernel` image,
    /// since no config exists that breaks that rule.
    pub fn kernel_version(&self) -> (r: Option<&str>)
        ensures
            r is Some <==> self@.kernel_version is Some,
            r is Some ==> r->0@ == self@.kernel_version->0,
            self@.image_type == "kernel"@ ==> r is Some,
    {
        proof {
            use_type_invariant(&*self);
        }
        match self.kernel_version.as_ref() {
            Some(s) => Some(s.as_str()),
            None => None,
        }
    }

    /// The kernel identifier field, when given.
    pub fn kernel_id(&self) -> (r: Option<&str>)
        ensures
            r is Some <==> self@.kernel_id is Some,
            r is Some ==> r->0@ == self@.kernel_id->0,
    {
        match self.kernel_id.as_ref() {
            Some(s) => Some(s.as_str()),
            None => None,
        }
    }

    /// The realm filesystem name field, when given.
    pub fn realmfs_name(&self) -> (r: Option<&str>)
        ensures
            r is Some <==> self@.realmfs_name is Some,
            r is Some ==> r->0@ == self@.realmfs_name->0,
    {
        match self.realmfs_name.as_ref() {
            Some(s) => Some(s.as_str()),
            None => None,
        }
    }

    /// The build's version number.
    pub fn version(&self) -> (r: u64)
        ensures
            r == self@.version,
    {
        self.version
    }

    /// The release channel label.
    pub fn channel(&self) -> (r: &str)
        ensures
            r@ == self@.channel,
    {
        self.channel.as_str()
    }

    /// The image type label; always one of the four accepted labels,
    /// since no config exists with another.
    pub fn image_type(&self) -> (r: &str)
        ensures
            r@ == self@.image_type,
            valid_image_type(r@),
    {
        proof {
            use_type_invariant(&*self);
        }
        self.image_type.as_str()
    }

    /// Whether the image is to be compressed.
    pub fn compress(&self) -> (r: bool)
        ensures
            r == self@.compress,
    {
        self.compress
    }
}

} // verus!
