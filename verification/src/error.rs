//! Why a workflow stops before its end.
use crate::text;
use vstd::prelude::*;

verus! {

/// The reason a workflow stopped. `T` is the type of its texts: `String` in
/// running code, a sequence of characters in contracts.
#[derive(Debug, PartialEq, Eq)]
pub enum Error<T = String> {
    /// A program could not be started, for this cause.
    NotStarted { program: T, cause: T },
    /// A program ended with a failure status.
    Exited { program: T, status: T },
    /// `sudo` does not grant root privileges.
    SudoRequired,
    /// The processor architecture has no release artifacts.
    UnsupportedArchitecture(T),
    /// A binary that the host must have is absent.
    MissingBinary(T),
    /// Swap is in use.
    SwapEnabled,
    /// No role has this name.
    InvalidRole(T),
    /// A control-plane node cannot join without a certificate key.
    CertificateKeyRequired,
    /// Neither tool that can install the CNI is present.
    NoCniInstaller,
    /// Storage cannot be installed without Helm.
    HelmRequired,
    /// The cluster names no node.
    UnknownNode,
    /// The named node still has the control-plane `NoSchedule` taint.
    TaintRemains(T),
    /// The routing table names no default device.
    NoDefaultRoute,
    /// The named device has no usable address.
    NoAddress(T),
    /// The detected endpoint was turned down.
    EndpointDeclined,
    /// The operation was not confirmed.
    Aborted,
    /// A prompt could not be answered, for this cause.
    NoReply(T),
    /// The configuration file lacks a value.
    MissingSetting { section: T, key: T },
    /// The configuration file holds something else than a text.
    SettingNotText { section: T, key: T },
}

impl View for Error<String> {
    type V = Error<Seq<char>>;

    open spec fn view(&self) -> Error<Seq<char>> {
        match self {
            Error::NotStarted { program, cause } => Error::NotStarted {
                program: program@,
                cause: cause@,
            },
            Error::Exited { program, status } => Error::Exited {
                program: program@,
                status: status@,
            },
            Error::SudoRequired => Error::SudoRequired,
            Error::UnsupportedArchitecture(arch) => Error::UnsupportedArchitecture(arch@),
            Error::MissingBinary(binary) => Error::MissingBinary(binary@),
            Error::SwapEnabled => Error::SwapEnabled,
            Error::InvalidRole(role) => Error::InvalidRole(role@),
            Error::CertificateKeyRequired => Error::CertificateKeyRequired,
            Error::NoCniInstaller => Error::NoCniInstaller,
            Error::HelmRequired => Error::HelmRequired,
            Error::UnknownNode => Error::UnknownNode,
            Error::TaintRemains(node) => Error::TaintRemains(node@),
            Error::NoDefaultRoute => Error::NoDefaultRoute,
            Error::NoAddress(device) => Error::NoAddress(device@),
            Error::EndpointDeclined => Error::EndpointDeclined,
            Error::Aborted => Error::Aborted,
            Error::NoReply(cause) => Error::NoReply(cause@),
            Error::MissingSetting { section, key } => Error::MissingSetting {
                section: section@,
                key: key@,
            },
            Error::SettingNotText { section, key } => Error::SettingNotText {
                section: section@,
                key: key@,
            },
        }
    }
}

/// What the user is told.
pub open spec fn message_of(error: Error<Seq<char>>) -> Seq<char> {
    match error {
        Error::NotStarted { program, .. } => "failed to execute "@ + program,
        Error::Exited { program, status } => program + " exited with status "@ + status,
        Error::SudoRequired => "sudo access is required to install dependencies"@,
        Error::UnsupportedArchitecture(arch) => "Unsupported architecture: "@ + arch,
        Error::MissingBinary(binary) => "Required binary not found: "@ + binary
            + ". Install it before proceeding."@,
        Error::SwapEnabled =>
            "Swap is enabled. Disable swap before initializing the cluster: swapoff -a"@,
        Error::InvalidRole(role) => "Invalid role: "@ + role
            + ". Use 'worker', 'control-plane', or 'both'."@,
        Error::CertificateKeyRequired =>
            "Control-plane join requires --certificate-key. Generate one with: kubeinit join-token --control-plane"@,
        Error::NoCniInstaller =>
            "Neither `cilium` CLI nor `helm` found. Install one of them to proceed with CNI setup."@,
        Error::HelmRequired => "helm is required to install OpenEBS LocalPV Provisioner"@,
        Error::UnknownNode => "Could not determine node name for taint removal"@,
        Error::TaintRemains(node) => "Control-plane NoSchedule taint still present on "@ + node
            + " after removal attempt. Storage pods would not be schedulable."@,
        Error::NoDefaultRoute => "could not determine default route device"@,
        Error::NoAddress(device) => "could not detect an IPv4 address on device "@ + device,
        Error::EndpointDeclined =>
            "Aborted. Re-run with --control-plane-endpoint to specify one."@,
        Error::Aborted => "Aborted."@,
        Error::NoReply(cause) => cause,
        Error::MissingSetting { section, key } => "missing key "@ + key
            + " in config.toml path [\""@ + section + "\", \""@ + key + "\"]"@,
        Error::SettingNotText { section, key } => "expected string at [\""@ + section + "\", \""@
            + key + "\"] in config.toml"@,
    }
}

/// What the system reports behind an error, if anything.
pub open spec fn cause_of(error: Error<Seq<char>>) -> Option<Seq<char>> {
    match error {
        Error::NotStarted { cause, .. } => Some(cause),
        _ => None,
    }
}

/// The message, and the cause behind it, in one line.
pub open spec fn described(error: Error<Seq<char>>) -> Seq<char> {
    match cause_of(error) {
        Some(cause) => message_of(error) + ": "@ + cause,
        None => message_of(error),
    }
}

impl Error<String> {
    /// The message for the user.
    pub fn message(&self) -> (r: String)
        ensures
            r@ == message_of(self@),
    {
        match self {
            Error::NotStarted { program, .. } => "failed to execute ".to_owned().concat(
                program.as_str(),
            ),
            Error::Exited { program, status } => program.as_str().to_owned().concat(
                " exited with status ",
            ).concat(status.as_str()),
            Error::SudoRequired => "sudo access is required to install dependencies".to_owned(),
            Error::UnsupportedArchitecture(arch) => "Unsupported architecture: ".to_owned().concat(
                arch.as_str(),
            ),
            Error::MissingBinary(binary) => "Required binary not found: ".to_owned().concat(
                binary.as_str(),
            ).concat(". Install it before proceeding."),
            Error::SwapEnabled =>
                "Swap is enabled. Disable swap before initializing the cluster: swapoff -a".to_owned(),
            Error::InvalidRole(role) => "Invalid role: ".to_owned().concat(role.as_str()).concat(
                ". Use 'worker', 'control-plane', or 'both'.",
            ),
            Error::CertificateKeyRequired =>
                "Control-plane join requires --certificate-key. Generate one with: kubeinit join-token --control-plane".to_owned(),
            Error::NoCniInstaller =>
                "Neither `cilium` CLI nor `helm` found. Install one of them to proceed with CNI setup.".to_owned(),
            Error::HelmRequired =>
                "helm is required to install OpenEBS LocalPV Provisioner".to_owned(),
            Error::UnknownNode => "Could not determine node name for taint removal".to_owned(),
            Error::TaintRemains(node) =>
                "Control-plane NoSchedule taint still present on ".to_owned().concat(
                node.as_str(),
            ).concat(" after removal attempt. Storage pods would not be schedulable."),
            Error::NoDefaultRoute => "could not determine default route device".to_owned(),
            Error::NoAddress(device) =>
                "could not detect an IPv4 address on device ".to_owned().concat(device.as_str()),
            Error::EndpointDeclined =>
                "Aborted. Re-run with --control-plane-endpoint to specify one.".to_owned(),
            Error::Aborted => "Aborted.".to_owned(),
            Error::NoReply(cause) => cause.as_str().to_owned(),
            Error::MissingSetting { section, key } => "missing key ".to_owned().concat(
                key.as_str(),
            ).concat(" in config.toml path [\"").concat(section.as_str()).concat("\", \"").concat(
                key.as_str(),
            ).concat("\"]"),
            Error::SettingNotText { section, key } => "expected string at [\"".to_owned().concat(
                section.as_str(),
            ).concat("\", \"").concat(key.as_str()).concat("\"] in config.toml"),
        }
    }

    /// What the system reports behind the error, if anything.
    pub fn cause(&self) -> (r: Option<&str>)
        ensures
            text::optional_str(r) == cause_of(self@),
    {
        match self {
            Error::NotStarted { cause, .. } => Some(cause.as_str()),
            _ => None,
        }
    }

    /// The message, and the cause behind it, in one line.
    pub fn describe(&self) -> (r: String)
        ensures
            r@ == described(self@),
    {
        match self.cause() {
            Some(cause) => self.message().concat(": ").concat(cause),
            None => self.message(),
        }
    }
}

} // verus!
