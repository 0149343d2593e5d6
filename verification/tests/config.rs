use kubeinit::config::{self, Entry, Host, RealUser, Settings};
use kubeinit::error::Error;

const NAMES: [(&str, &str); 26] = [
    ("network", "pod_cidr"),
    ("network", "service_cidr"),
    ("runtime", "containerd_socket"),
    ("paths", "bin_dir"),
    ("paths", "sbin_dir"),
    ("paths", "cni_bin_dir"),
    ("paths", "cni_conf_dir"),
    ("paths", "containerd_conf_dir"),
    ("paths", "kubernetes_conf_dir"),
    ("paths", "kubelet_data_dir"),
    ("paths", "etcd_data_dir"),
    ("paths", "containerd_data_dir"),
    ("paths", "containerd_run_dir"),
    ("paths", "systemd_unit_dir"),
    ("paths", "crictl_config"),
    ("urls", "containerd"),
    ("urls", "containerd_service"),
    ("urls", "runc"),
    ("urls", "cni_plugins"),
    ("urls", "crictl"),
    ("urls", "kubernetes"),
    ("urls", "helm"),
    ("urls", "cilium_cli"),
    ("urls", "cilium_helm_repo"),
    ("urls", "gateway_api_crds"),
    ("urls", "openebs_localpv_helm_repo"),
];

fn entry(section: &str, key: &str, value: &str) -> Entry {
    Entry { section: section.to_string(), key: key.to_string(), value: Some(value.to_string()) }
}

fn entries() -> Vec<Entry> {
    NAMES.iter().map(|(section, key)| entry(section, key, &format!("{section}.{key}"))).collect()
}

#[test]
fn settings_are_read_by_section_and_key() {
    let settings = Settings::from_entries(&entries()).unwrap();
    assert_eq!(settings.pod_cidr, "network.pod_cidr");
    assert_eq!(settings.containerd_socket, "runtime.containerd_socket");
    assert_eq!(settings.crictl_config, "paths.crictl_config");
    assert_eq!(settings.url_crictl, "urls.crictl");
    assert_eq!(settings.url_openebs_localpv_helm_repo, "urls.openebs_localpv_helm_repo");
}

#[test]
fn the_first_value_of_a_key_counts() {
    let mut list = entries();
    list.insert(0, entry("paths", "bin_dir", "first"));
    list.push(entry("paths", "sbin_dir", "last"));
    let settings = Settings::from_entries(&list).unwrap();
    assert_eq!(settings.bin_dir, "first");
    assert_eq!(settings.sbin_dir, "paths.sbin_dir");
}

#[test]
fn the_first_missing_setting_is_reported() {
    let mut list = entries();
    list.remove(25);
    list.remove(4);
    let error = Settings::from_entries(&list).unwrap_err();
    assert_eq!(
        error,
        Error::MissingSetting { section: "paths".to_string(), key: "sbin_dir".to_string() }
    );
    assert_eq!(
        error.message(),
        "missing key sbin_dir in config.toml path [\"paths\", \"sbin_dir\"]"
    );
    assert_eq!(
        Settings::from_entries(&Vec::new()).unwrap_err(),
        Error::MissingSetting { section: "network".to_string(), key: "pod_cidr".to_string() }
    );
}

#[test]
fn a_setting_that_is_not_a_text_is_reported() {
    let mut list = entries();
    list[3].value = None;
    list.remove(20);
    let error = Settings::from_entries(&list).unwrap_err();
    assert_eq!(
        error,
        Error::SettingNotText { section: "paths".to_string(), key: "bin_dir".to_string() }
    );
    assert_eq!(error.message(), "expected string at [\"paths\", \"bin_dir\"] in config.toml");
    let mut list = entries();
    list.push(Entry { section: "paths".to_string(), key: "other".to_string(), value: None });
    assert!(Settings::from_entries(&list).is_ok());
}

#[test]
fn the_home_directory_is_that_of_the_invoking_user_or_of_root() {
    let mut host = Host {
        root: true,
        arch: "x86_64".to_string(),
        user: None,
        settings: Settings::from_entries(&entries()).unwrap(),
    };
    assert_eq!(host.home(), "/root");
    host.user = Some(RealUser {
        home: "/home/ada".to_string(),
        uid: 1000,
        gid: 1000,
    });
    assert_eq!(host.home(), "/home/ada");
}

#[test]
fn versions_default() {
    assert_eq!(config::version_or(None, config::DEFAULT_KUBERNETES_VERSION), "1.35.3");
    assert_eq!(config::version_or(Some("1.30.0"), config::DEFAULT_KUBERNETES_VERSION), "1.30.0");
    assert_eq!(config::DEFAULT_CONTAINERD_VERSION, "2.2.2");
    assert_eq!(config::DEFAULT_RUNC_VERSION, "1.4.2");
    assert_eq!(config::DEFAULT_CNI_PLUGINS_VERSION, "1.9.1");
    assert_eq!(config::DEFAULT_CRICTL_VERSION, "1.35.0");
    assert_eq!(config::DEFAULT_HELM_VERSION, "4.1.3");
    assert_eq!(config::DEFAULT_CILIUM_CLI_VERSION, "0.19.2");
    assert_eq!(config::DEFAULT_GATEWAY_API_VERSION, "1.5.1");
    assert_eq!(config::DEFAULT_OPENEBS_LOCALPV_VERSION, "4.4.0");
}
