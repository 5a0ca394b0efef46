//! The configuration that says where a kernel's parts are found and where
//! its image goes: defaults, what a configuration file overrides, and the
//! kernel's name filled into the paths.

use crate::template::{substitute, substituted, ParseTemplate};
use vstd::prelude::*;
use vstd::string::*;

verus! {

/// `text` with the kernel's name in place of every `%name%`.
pub open spec fn filled(text: Seq<char>, name: Seq<char>) -> Seq<char> {
    substituted(text, "%name%"@, name)
}

/// The characters of each of `paths`.
pub open spec fn texts(paths: Seq<String>) -> Seq<Seq<char>> {
    Seq::new(paths.len(), |i: int| paths[i]@)
}

/// Each of `paths` with the kernel's name filled in.
pub open spec fn filled_all(paths: Seq<Seq<char>>, name: Seq<char>) -> Seq<Seq<char>> {
    Seq::new(paths.len(), |i: int| filled(paths[i], name))
}

impl ParseTemplate<String> for String {
    /// This text with the kernel's name in place of every `%name%`.
    fn parse_template(&self, template: &String) -> (out: String)
        ensures
            out@ == filled(self@, template@),
    {
        substitute(self.as_str(), "%name%", template.as_str())
    }
}

/// Fills the kernel's name into each of `paths`.
pub fn parse_templates(paths: &Vec<String>, name: &String) -> (out: Vec<String>)
    ensures
        texts(out@) == filled_all(texts(paths@), name@),
{
    let mut out: Vec<String> = Vec::new();
    let mut i: usize = 0;
    while i < paths.len()
        invariant
            i <= paths@.len(),
            out@.len() == i,
            forall|k: int| 0 <= k < i ==> out@[k]@ == filled(paths@[k]@, name@),
        decreases paths@.len() - i,
    {
        out.push(paths[i].parse_template(name));
        i = i + 1;
    }
    assert(texts(out@) =~= filled_all(texts(paths@), name@));
    out
}

/// Where the parts of one kernel's image are found, and where the image goes.
#[derive(Debug)]
pub struct KernelConfig {
    /// The directory that the image is written to.
    pub output_dir: String,
    /// The file name of the image.
    pub output_name: String,
    /// The EFI stub that the image is built on.
    pub stub_path: String,
    /// The file that holds the kernel command line.
    pub cmdline_path: String,
    /// The initrd and microcode images, in the order they are joined.
    pub initrd_paths: Vec<String>,
    /// The kernel image.
    pub vmlinuz_path: String,
    /// The splash image.
    pub splash_path: String,
}

/// What a kernel's configuration holds, as plain text.
pub struct KernelConfigView {
    pub output_dir: Seq<char>,
    pub output_name: Seq<char>,
    pub stub_path: Seq<char>,
    pub cmdline_path: Seq<char>,
    pub initrd_paths: Seq<Seq<char>>,
    pub vmlinuz_path: Seq<char>,
    pub splash_path: Seq<char>,
}

impl View for KernelConfig {
    type V = KernelConfigView;

    open spec fn view(&self) -> KernelConfigView {
        KernelConfigView {
            output_dir: self.output_dir@,
            output_name: self.output_name@,
            stub_path: self.stub_path@,
            cmdline_path: self.cmdline_path@,
            initrd_paths: texts(self.initrd_paths@),
            vmlinuz_path: self.vmlinuz_path@,
            splash_path: self.splash_path@,
        }
    }
}

/// What a kernel's configuration file may set; what it leaves out is `None`.
#[derive(Debug)]
pub struct KernelConfigOpt {
    pub output_dir: Option<String>,
    pub output_name: Option<String>,
    pub stub_path: Option<String>,
    pub cmdline_path: Option<String>,
    pub initrd_paths: Option<Vec<String>>,
    pub vmlinuz_path: Option<String>,
    pub splash_path: Option<String>,
}

/// The text that was set, or else the default.
pub open spec fn text_or(set: Option<String>, default: Seq<char>) -> Seq<char> {
    match set {
        Some(text) => text@,
        None => default,
    }
}

/// The configuration in which every field that `set` holds replaces the default's.
pub open spec fn merged(set: KernelConfigOpt, default: KernelConfigView) -> KernelConfigView {
    KernelConfigView {
        output_dir: text_or(set.output_dir, default.output_dir),
        output_name: text_or(set.output_name, default.output_name),
        stub_path: text_or(set.stub_path, default.stub_path),
        cmdline_path: text_or(set.cmdline_path, default.cmdline_path),
        initrd_paths: match set.initrd_paths {
            Some(paths) => texts(paths@),
            None => default.initrd_paths,
        },
        vmlinuz_path: text_or(set.vmlinuz_path, default.vmlinuz_path),
        splash_path: text_or(set.splash_path, default.splash_path),
    }
}

/// The configuration with the kernel's name filled into every field.
pub open spec fn filled_config(config: KernelConfigView, name: Seq<char>) -> KernelConfigView {
    KernelConfigView {
        output_dir: filled(config.output_dir, name),
        output_name: filled(config.output_name, name),
        stub_path: filled(config.stub_path, name),
        cmdline_path: filled(config.cmdline_path, name),
        initrd_paths: filled_all(config.initrd_paths, name),
        vmlinuz_path: filled(config.vmlinuz_path, name),
        splash_path: filled(config.splash_path, name),
    }
}

/// The defaults that hold where no configuration file says otherwise.
pub open spec fn builtin_defaults() -> KernelConfigView {
    KernelConfigView {
        output_dir: "/efi/EFI/Linux/"@,
        output_name: "%name%.efi"@,
        stub_path: "/usr/lib/systemd/boot/efi/linuxx64.efi.stub"@,
        cmdline_path: "/etc/kernel/cmdline"@,
        initrd_paths: seq![
            "/boot/amd-ucode.img"@,
            "/boot/intel-ucode.img"@,
            "/boot/initramfs-%name%.img"@,
        ],
        vmlinuz_path: "/boot/vmlinuz-%name%"@,
        splash_path: "/usr/share/systemd/bootctl/splash-arch.bmp"@,
    }
}

impl KernelConfigOpt {
    /// A configuration file that sets nothing: every field is `None`, so
    /// that merging it with a default gives that default.
    pub fn empty() -> (set: KernelConfigOpt)
        ensures
            set.output_dir is None,
            set.output_name is None,
            set.stub_path is None,
            set.cmdline_path is None,
            set.initrd_paths is None,
            set.vmlinuz_path is None,
            set.splash_path is None,
            forall|default: KernelConfigView| #[trigger] merged(set, default) == default,
    {
        KernelConfigOpt {
            output_dir: None,
            output_name: None,
            stub_path: None,
            cmdline_path: None,
            initrd_paths: None,
            vmlinuz_path: None,
            splash_path: None,
        }
    }

    /// The configuration that takes every field that is set from `self` and
    /// the others from `default`.
    pub fn unwrap_or(self, default: KernelConfig) -> (config: KernelConfig)
        ensures
            config@ == merged(self, default@),
    {
        KernelConfig {
            output_dir: match self.output_dir {
                Some(text) => text,
                None => default.output_dir,
            },
            output_name: match self.output_name {
                Some(text) => text,
                None => default.output_name,
            },
            stub_path: match self.stub_path {
                Some(text) => text,
                None => default.stub_path,
            },
            cmdline_path: match self.cmdline_path {
                Some(text) => text,
                None => default.cmdline_path,
            },
            initrd_paths: match self.initrd_paths {
                Some(paths) => paths,
                None => default.initrd_paths,
            },
            vmlinuz_path: match self.vmlinuz_path {
                Some(text) => text,
                None => default.vmlinuz_path,
            },
            splash_path: match self.splash_path {
                Some(text) => text,
                None => default.splash_path,
            },
        }
    }
}

impl KernelConfig {
    /// The defaults that hold where no configuration file says otherwise.
    pub fn builtin() -> (config: KernelConfig)
        ensures
            config@ == builtin_defaults(),
    {
        let mut initrd_paths: Vec<String> = Vec::new();
        initrd_paths.push("/boot/amd-ucode.img".to_owned());
        initrd_paths.push("/boot/intel-ucode.img".to_owned());
        initrd_paths.push("/boot/initramfs-%name%.img".to_owned());
        assert(texts(initrd_paths@) =~= builtin_defaults().initrd_paths);
        KernelConfig {
            output_dir: "/efi/EFI/Linux/".to_owned(),
            output_name: "%name%.efi".to_owned(),
            stub_path: "/usr/lib/systemd/boot/efi/linuxx64.efi.stub".to_owned(),
            cmdline_path: "/etc/kernel/cmdline".to_owned(),
            initrd_paths,
            vmlinuz_path: "/boot/vmlinuz-%name%".to_owned(),
            splash_path: "/usr/share/systemd/bootctl/splash-arch.bmp".to_owned(),
        }
    }
}

impl ParseTemplate<String> for KernelConfig {
    /// This configuration with the kernel's name in place of every `%name%`.
    fn parse_template(&self, template: &String) -> (config: KernelConfig)
        ensures
            config@ == filled_config(self@, template@),
    {
        KernelConfig {
            output_dir: self.output_dir.parse_template(template),
            output_name: self.output_name.parse_template(template),
            stub_path: self.stub_path.parse_template(template),
            cmdline_path: self.cmdline_path.parse_template(template),
            initrd_paths: parse_templates(&self.initrd_paths, template),
            vmlinuz_path: self.vmlinuz_path.parse_template(template),
            splash_path: self.splash_path.parse_template(template),
        }
    }
}

/// The text that was set, or else the default, with the kernel's name filled in.
fn filled_or(set: &Option<String>, default: &String, name: &String) -> (out: String)
    ensures
        out@ == filled(text_or(*set, default@), name@),
{
    match set {
        Some(text) => text.parse_template(name),
        None => default.parse_template(name),
    }
}

/// The configuration that all kernels share.
#[derive(Debug)]
pub struct GlobalConfig {
    /// What holds for a kernel where its own configuration file says nothing.
    pub default_kernel_config: KernelConfig,
}

impl GlobalConfig {
    /// The global configuration from what its file sets; `None` when the
    /// file could not be had, which the caller tells by passing `None`.
    ///
    /// What the file leaves out is taken from the built-in defaults.
    pub fn new(parsed: Option<KernelConfigOpt>) -> (config: Option<GlobalConfig>)
        ensures
            match parsed {
                Some(set) => config matches Some(global) && global.default_kernel_config@
                    == merged(set, builtin_defaults()),
                None => config is None,
            },
    {
        match parsed {
            Some(set) => Some(
                GlobalConfig { default_kernel_config: set.unwrap_or(KernelConfig::builtin()) },
            ),
            None => None,
        }
    }

    /// The configuration of the kernel named `kernel_name` from what its
    /// own file sets; `None` when the file could not be had, which the
    /// caller tells by passing `None`.
    ///
    /// What the file leaves out is taken from the shared defaults, and the
    /// kernel's name is filled in for every `%name%`.
    pub fn parse_instance(&self, parsed: Option<KernelConfigOpt>, kernel_name: &String) -> (config:
        Option<KernelConfig>)
        ensures
            match parsed {
                Some(set) => config matches Some(kernel) && kernel@ == filled_config(
                    merged(set, self.default_kernel_config@),
                    kernel_name@,
                ),
                None => config is None,
            },
    {
        let set = match parsed {
            Some(set) => set,
            None => {
                return None;
            },
        };
        let default = &self.default_kernel_config;
        let initrd_paths = match &set.initrd_paths {
            Some(paths) => parse_templates(paths, kernel_name),
            None => parse_templates(&default.initrd_paths, kernel_name),
        };
        Some(
            KernelConfig {
                output_dir: filled_or(&set.output_dir, &default.output_dir, kernel_name),
                output_name: filled_or(&set.output_name, &default.output_name, kernel_name),
                stub_path: filled_or(&set.stub_path, &default.stub_path, kernel_name),
                cmdline_path: filled_or(&set.cmdline_path, &default.cmdline_path, kernel_name),
                initrd_paths,
                vmlinuz_path: filled_or(&set.vmlinuz_path, &default.vmlinuz_path, kernel_name),
                splash_path: filled_or(&set.splash_path, &default.splash_path, kernel_name),
            },
        )
    }
}

/// Where the kernels and the images are found on this system.
#[derive(Debug)]
pub struct Config {
    /// The directory that holds the installed kernels.
    pub boot_dir: String,
    /// The EFI system partition.
    pub esp_dir: String,
    /// The directory that the images are written to.
    pub output_dir: String,
}

/// What the configuration file may set of [`Config`]; what it leaves out is `None`.
#[derive(Debug)]
pub struct ConfigOpt {
    pub boot_dir: Option<String>,
    pub esp_dir: Option<String>,
    pub output_dir: Option<String>,
}

impl ConfigOpt {
    /// The configuration that takes every field that is set from `self` and
    /// the others from `default`.
    pub fn unwrap_or(self, default: Config) -> (config: Config)
        ensures
            config.boot_dir@ == text_or(self.boot_dir, default.boot_dir@),
            config.esp_dir@ == text_or(self.esp_dir, default.esp_dir@),
            config.output_dir@ == text_or(self.output_dir, default.output_dir@),
    {
        Config {
            boot_dir: match self.boot_dir {
                Some(text) => text,
                None => default.boot_dir,
            },
            esp_dir: match self.esp_dir {
                Some(text) => text,
                None => default.esp_dir,
            },
            output_dir: match self.output_dir {
                Some(text) => text,
                None => default.output_dir,
            },
        }
    }
}

/// What the command line asked for.
#[derive(Debug)]
pub struct Opts {
    /// Print the usage and leave.
    pub help: bool,
    /// Print the version and leave.
    pub version: bool,
    /// Build an image for every installed kernel.
    pub gen_all: bool,
    /// The configuration file.
    pub config_file: String,
    /// The directory of the kernels' own configuration files.
    pub config_dir: String,
    /// The usage text.
    pub usage: String,
}

impl Opts {
    /// The options from what was found on the command line. Where no
    /// configuration file or directory was named, the system-wide ones are taken.
    pub fn from_matches(
        help: bool,
        version: bool,
        gen_all: bool,
        config_file: Option<String>,
        config_dir: Option<String>,
        usage: String,
    ) -> (opts: Opts)
        ensures
            opts.help == help,
            opts.version == version,
            opts.gen_all == gen_all,
            opts.config_file@ == text_or(config_file, "/etc/uki-manager/"@),
            opts.config_dir@ == text_or(config_dir, "/etc/uki-manager.d/"@),
            opts.usage == usage,
    {
        Opts {
            help,
            version,
            gen_all,
            config_file: match config_file {
                Some(path) => path,
                None => "/etc/uki-manager/".to_owned(),
            },
            config_dir: match config_dir {
                Some(path) => path,
                None => "/etc/uki-manager.d/".to_owned(),
            },
            usage,
        }
    }
}

} // verus!
