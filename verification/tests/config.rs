use uki_manager::config::{
    parse_templates, Config, ConfigOpt, GlobalConfig, KernelConfig, KernelConfigOpt, Opts,
};
use uki_manager::discover::{find_first, kernel_name};
use uki_manager::template::{occurs_at, substitute, ParseTemplate};

fn nothing() -> KernelConfigOpt {
    KernelConfigOpt::empty()
}

fn strings(texts: &[&str]) -> Vec<String> {
    texts.iter().map(|t| t.to_string()).collect()
}

#[test]
fn substitute_replaces_every_occurrence() {
    assert_eq!(substitute("/boot/vmlinuz-%name%", "%name%", "linux-zen"), "/boot/vmlinuz-linux-zen");
    assert_eq!(substitute("%name%-%name%.efi", "%name%", "lts"), "lts-lts.efi");
    assert_eq!(substitute("%name%", "%name%", ""), "");
}

#[test]
fn substitute_leaves_other_text_alone() {
    assert_eq!(substitute("/etc/kernel/cmdline", "%name%", "linux"), "/etc/kernel/cmdline");
    assert_eq!(substitute("", "%name%", "linux"), "");
    assert_eq!(substitute("%name", "%name%", "linux"), "%name");
    assert_eq!(substitute("abc", "", "x"), "abc");
}

#[test]
fn substitute_goes_from_left_to_right_without_overlap() {
    assert_eq!(substitute("aaa", "aa", "b"), "ba");
    assert_eq!(substitute("%%name%%", "%name%", "x"), "%x%");
    assert_eq!(substitute("abab", "ab", "ab-"), "ab-ab-");
}

#[test]
fn substitute_counts_characters_not_bytes() {
    assert_eq!(substitute("größe-%name%-ü", "%name%", "käse"), "größe-käse-ü");
    assert_eq!(substitute("ääö", "ä", "a"), "aaö");
}

#[test]
fn occurs_at_looks_at_one_place() {
    assert!(occurs_at("initramfs-%name%.img", 10, "%name%"));
    assert!(!occurs_at("initramfs-%name%.img", 9, "%name%"));
    assert!(!occurs_at("%name", 0, "%name%"));
    assert!(occurs_at("abc", 3, ""));
}

#[test]
fn a_text_fills_in_the_kernel_name() {
    let name = "linux-lts".to_string();
    assert_eq!("%name%.efi".to_string().parse_template(&name), "linux-lts.efi");
    assert_eq!(
        parse_templates(&strings(&["/boot/intel-ucode.img", "/boot/initramfs-%name%.img"]), &name),
        strings(&["/boot/intel-ucode.img", "/boot/initramfs-linux-lts.img"])
    );
}

#[test]
fn builtin_defaults_are_the_systemd_boot_layout() {
    let config = KernelConfig::builtin();
    assert_eq!(config.output_dir, "/efi/EFI/Linux/");
    assert_eq!(config.output_name, "%name%.efi");
    assert_eq!(config.stub_path, "/usr/lib/systemd/boot/efi/linuxx64.efi.stub");
    assert_eq!(config.cmdline_path, "/etc/kernel/cmdline");
    assert_eq!(
        config.initrd_paths,
        strings(&["/boot/amd-ucode.img", "/boot/intel-ucode.img", "/boot/initramfs-%name%.img"])
    );
    assert_eq!(config.vmlinuz_path, "/boot/vmlinuz-%name%");
    assert_eq!(config.splash_path, "/usr/share/systemd/bootctl/splash-arch.bmp");
}

#[test]
fn unwrap_or_takes_what_is_set() {
    let mut set = nothing();
    set.stub_path = Some("/stub".to_string());
    set.initrd_paths = Some(strings(&["/a", "/b"]));
    let config = set.unwrap_or(KernelConfig::builtin());
    assert_eq!(config.stub_path, "/stub");
    assert_eq!(config.initrd_paths, strings(&["/a", "/b"]));
    assert_eq!(config.output_dir, "/efi/EFI/Linux/");
    assert_eq!(config.vmlinuz_path, "/boot/vmlinuz-%name%");
}

#[test]
fn unwrap_or_of_nothing_is_the_default() {
    let config = nothing().unwrap_or(KernelConfig::builtin());
    let default = KernelConfig::builtin();
    assert_eq!(config.output_dir, default.output_dir);
    assert_eq!(config.output_name, default.output_name);
    assert_eq!(config.stub_path, default.stub_path);
    assert_eq!(config.cmdline_path, default.cmdline_path);
    assert_eq!(config.initrd_paths, default.initrd_paths);
    assert_eq!(config.vmlinuz_path, default.vmlinuz_path);
    assert_eq!(config.splash_path, default.splash_path);
}

#[test]
fn unwrap_or_of_everything_ignores_the_default() {
    let set = KernelConfigOpt {
        output_dir: Some("1".to_string()),
        output_name: Some("2".to_string()),
        stub_path: Some("3".to_string()),
        cmdline_path: Some("4".to_string()),
        initrd_paths: Some(Vec::new()),
        vmlinuz_path: Some("6".to_string()),
        splash_path: Some("7".to_string()),
    };
    let config = set.unwrap_or(KernelConfig::builtin());
    assert_eq!(config.output_dir, "1");
    assert_eq!(config.output_name, "2");
    assert_eq!(config.stub_path, "3");
    assert_eq!(config.cmdline_path, "4");
    assert!(config.initrd_paths.is_empty());
    assert_eq!(config.vmlinuz_path, "6");
    assert_eq!(config.splash_path, "7");
}

#[test]
fn config_opt_unwrap_or_merges_field_by_field() {
    let default =
        || Config { boot_dir: "/boot/".into(), esp_dir: "/efi/".into(), output_dir: "EFI/Linux".into() };
    let merged = ConfigOpt { boot_dir: None, esp_dir: Some("/esp/".into()), output_dir: None }
        .unwrap_or(default());
    assert_eq!(merged.boot_dir, "/boot/");
    assert_eq!(merged.esp_dir, "/esp/");
    assert_eq!(merged.output_dir, "EFI/Linux");
    let merged = ConfigOpt {
        boot_dir: Some("/b".into()),
        esp_dir: Some("/e".into()),
        output_dir: Some("/o".into()),
    }
    .unwrap_or(default());
    assert_eq!(merged.boot_dir, "/b");
    assert_eq!(merged.esp_dir, "/e");
    assert_eq!(merged.output_dir, "/o");
    let merged =
        ConfigOpt { boot_dir: None, esp_dir: None, output_dir: None }.unwrap_or(default());
    assert_eq!(merged.boot_dir, "/boot/");
    assert_eq!(merged.esp_dir, "/efi/");
}

#[test]
fn global_config_without_a_file_is_none() {
    assert!(GlobalConfig::new(None).is_none());
}

#[test]
fn global_config_fills_in_the_builtin_defaults() {
    let mut set = nothing();
    set.output_dir = Some("/esp/EFI/Linux/".to_string());
    let global = GlobalConfig::new(Some(set)).unwrap();
    assert_eq!(global.default_kernel_config.output_dir, "/esp/EFI/Linux/");
    assert_eq!(global.default_kernel_config.output_name, "%name%.efi");
    assert_eq!(global.default_kernel_config.vmlinuz_path, "/boot/vmlinuz-%name%");
}

#[test]
fn parse_instance_without_a_file_is_none() {
    let global = GlobalConfig::new(Some(nothing())).unwrap();
    assert!(global.parse_instance(None, &"linux".to_string()).is_none());
}

#[test]
fn parse_instance_merges_and_fills_in_the_name() {
    let mut shared = nothing();
    shared.cmdline_path = Some("/etc/cmdline.d/%name%".to_string());
    let global = GlobalConfig::new(Some(shared)).unwrap();
    let mut own = nothing();
    own.output_name = Some("arch-%name%.efi".to_string());
    own.initrd_paths = Some(strings(&["/boot/%name%.img"]));
    let kernel = global.parse_instance(Some(own), &"linux-zen".to_string()).unwrap();
    assert_eq!(kernel.output_dir, "/efi/EFI/Linux/");
    assert_eq!(kernel.output_name, "arch-linux-zen.efi");
    assert_eq!(kernel.stub_path, "/usr/lib/systemd/boot/efi/linuxx64.efi.stub");
    assert_eq!(kernel.cmdline_path, "/etc/cmdline.d/linux-zen");
    assert_eq!(kernel.initrd_paths, strings(&["/boot/linux-zen.img"]));
    assert_eq!(kernel.vmlinuz_path, "/boot/vmlinuz-linux-zen");
    assert_eq!(kernel.splash_path, "/usr/share/systemd/bootctl/splash-arch.bmp");
    // the shared defaults keep their placeholders
    assert_eq!(global.default_kernel_config.cmdline_path, "/etc/cmdline.d/%name%");
}

#[test]
fn parse_instance_of_nothing_is_the_filled_default() {
    let global = GlobalConfig::new(Some(nothing())).unwrap();
    let kernel = global.parse_instance(Some(nothing()), &"linux".to_string()).unwrap();
    assert_eq!(kernel.output_name, "linux.efi");
    assert_eq!(
        kernel.initrd_paths,
        strings(&["/boot/amd-ucode.img", "/boot/intel-ucode.img", "/boot/initramfs-linux.img"])
    );
    let same = global.default_kernel_config.parse_template(&"linux".to_string());
    assert_eq!(kernel.output_name, same.output_name);
    assert_eq!(kernel.initrd_paths, same.initrd_paths);
    assert_eq!(kernel.vmlinuz_path, same.vmlinuz_path);
}

#[test]
fn opts_take_the_system_wide_configuration_by_default() {
    let opts = Opts::from_matches(false, true, false, None, None, "usage".to_string());
    assert!(!opts.help);
    assert!(opts.version);
    assert!(!opts.gen_all);
    assert_eq!(opts.config_file, "/etc/uki-manager/");
    assert_eq!(opts.config_dir, "/etc/uki-manager.d/");
    assert_eq!(opts.usage, "usage");
}

#[test]
fn opts_take_what_was_named() {
    let opts = Opts::from_matches(
        true,
        false,
        true,
        Some("/tmp/uki.toml".to_string()),
        Some("/tmp/uki.d".to_string()),
        String::new(),
    );
    assert!(opts.help);
    assert!(opts.gen_all);
    assert_eq!(opts.config_file, "/tmp/uki.toml");
    assert_eq!(opts.config_dir, "/tmp/uki.d");
}

#[test]
fn kernel_name_is_what_follows_the_marker() {
    assert_eq!(kernel_name("vmlinuz-linux-zen"), Some("linux-zen".to_string()));
    assert_eq!(kernel_name("vmlinuz-linux"), Some("linux".to_string()));
    assert_eq!(kernel_name("old-vmlinuz-lts"), Some("lts".to_string()));
    assert_eq!(kernel_name("vmlinuz-a-vmlinuz-b"), Some("a-vmlinuz-b".to_string()));
    assert_eq!(kernel_name("vmlinuz-"), Some(String::new()));
    assert_eq!(kernel_name("initramfs-linux.img"), None);
    assert_eq!(kernel_name("vmlinuz"), None);
    assert_eq!(kernel_name(""), None);
    assert_eq!(find_first("abcabc", "bc"), Some(1));
    assert_eq!(find_first("abc", ""), Some(0));
    assert_eq!(find_first("abc", "abcd"), None);
    assert_eq!(find_first("äbc", "c"), Some(2));
}

#[test]
fn the_empty_configuration_sets_no_field() {
    let set = KernelConfigOpt::empty();
    assert!(set.output_dir.is_none());
    assert!(set.output_name.is_none());
    assert!(set.stub_path.is_none());
    assert!(set.cmdline_path.is_none());
    assert!(set.initrd_paths.is_none());
    assert!(set.vmlinuz_path.is_none());
    assert!(set.splash_path.is_none());
}
