//! The ways in which resolving or validating a manifest can fail.
use vstd::prelude::*;

verus! {

/// The kind of a failure.
#[derive(Clone, Copy, Debug, PartialEq, Eq, Structural)]
pub enum Category {
    /// A source of configuration is malformed, or cannot be built from.
    Config,
    /// A resolved manifest or region does not pass a check.
    Validation,
    /// A secret is missing.
    Secret,
}

/// A failure, with the position of the offending element where there is one.
#[derive(Clone, Copy, Debug, PartialEq, Eq, Structural)]
pub enum Error {
    /// The service has no name.
    EmptyName,
    /// Resource requests or limits are not declared.
    MissingResources,
    /// A resource amount is not a decimal number.
    InvalidNumber,
    /// A resource amount does not fit into 128 bits.
    NumberTooLarge,
    /// A resource amount carries a unit that is not known.
    UnknownUnit,
    /// More CPU is requested than the limit allows.
    CpuRequestAboveLimit,
    /// More memory is requested than the limit allows.
    MemoryRequestAboveLimit,
    /// More than ten cores are requested.
    CpuRequestTooHigh,
    /// More than ten GiB of memory are requested.
    MemoryRequestTooHigh,
    /// The CPU limit is above twenty cores.
    CpuLimitTooHigh,
    /// The memory limit is above twenty GiB.
    MemoryLimitTooHigh,
    /// The config mount path is empty or `~`.
    EmptyMountPath,
    /// The config mount path does not end with a slash.
    MountPathWithoutSlash,
    /// The config file at this position is not a template.
    ConfigFileNotTemplate(usize),
    /// The dependency at this position names no existing service.
    UnknownDependency(usize),
    /// The dependency at this position has no API version.
    MissingApiVersion(usize),
    /// The API version of the dependency at this position is not a number.
    InvalidApiVersion(usize),
    /// The region at this position has no defaults file.
    UnsupportedRegion(usize),
    /// No region is declared.
    NoRegions,
    /// The image of the init container at this position has no valid shape.
    InitContainerImage(usize),
    /// The init container at this position has no command.
    InitContainerCommand(usize),
    /// A pattern of the library was not accepted by the pattern engine.
    BadPattern,
    /// An HTTP port is declared without a health check.
    MissingHealthCheck,
    /// The environment variable at this position names an empty secret key.
    InvalidKeyPath(usize),
    /// The secret for the environment variable at this position lacks its value.
    SecretNotFound(usize),
    /// The secret of a webhook's token lacks its value.
    WebhookSecretNotFound,
    /// The region is not of the form `namespace-location`.
    InvalidRegion,
    /// The vault URL of a region is not set.
    MissingVaultUrl,
    /// The vault folder of a region is not set.
    MissingVaultFolder,
    /// The vault folder of a region contains a slash.
    VaultFolderWithSlash,
    /// A version is neither a 40 character git sha nor semver.
    IllegalTag,
    /// A version is not semver.
    NotSemver,
    /// The audit revision is not specified.
    MissingAuditRevision,
    /// Authentication other than JWT is set while authorization is enabled.
    AuthConflict,
}

impl Error {
    /// The failure in words.
    pub open spec fn text(self) -> Seq<char> {
        match self {
            Error::EmptyName => "Name cannot be empty"@,
            Error::MissingResources => "Resource requests and limits must be declared"@,
            Error::InvalidNumber => "Resource amount is not a number"@,
            Error::NumberTooLarge => "Resource amount is too large"@,
            Error::UnknownUnit => "Unknown unit"@,
            Error::CpuRequestAboveLimit => "Requested more CPU than what was limited"@,
            Error::MemoryRequestAboveLimit => "Requested more memory than what was limited"@,
            Error::CpuRequestTooHigh => "Requested more than 10 cores"@,
            Error::MemoryRequestTooHigh => "Requested more than 10 GB of memory"@,
            Error::CpuLimitTooHigh => "CPU limit set to more than 20 cores"@,
            Error::MemoryLimitTooHigh => "Memory limit set to more than 20 GB of memory"@,
            Error::EmptyMountPath => "Empty mountpath for config mount"@,
            Error::MountPathWithoutSlash => "Mount path for configs must end with a slash"@,
            Error::ConfigFileNotTemplate(_) => "Config files must be templates"@,
            Error::UnknownDependency(_) => "Dependency does not exist in services/"@,
            Error::MissingApiVersion(_) => "Dependency has no api version"@,
            Error::InvalidApiVersion(_) => "Api version of dependency is not a number"@,
            Error::UnsupportedRegion(_) => "Unsupported region without region file"@,
            Error::NoRegions => "No regions specified"@,
            Error::InitContainerImage(_) => "The init container does not seem to match a valid image registry"@,
            Error::InitContainerCommand(_) => "A command must be specified for the init container"@,
            Error::BadPattern => "A pattern was not accepted"@,
            Error::MissingHealthCheck => "Service has an httpPort but no health check"@,
            Error::InvalidKeyPath(_) => "Environment variable does not have a valid key path"@,
            Error::SecretNotFound(_) => "Secret does not have the 'value' key"@,
            Error::WebhookSecretNotFound => "Webhook secret does not have the 'value' key"@,
            Error::InvalidRegion => "Invalid region"@,
            Error::MissingVaultUrl => "Need to set vault url"@,
            Error::MissingVaultFolder => "Need to set the vault folder"@,
            Error::VaultFolderWithSlash => "Vault config folder cannot contain slashes"@,
            Error::IllegalTag => "Illegal tag (floating tags cannot be rolled back please use 40 char git sha or semver)"@,
            Error::NotSemver => "Version is not a semver version in a region using semver versions"@,
            Error::MissingAuditRevision => "SHIPCAT_AUDIT_REVISION not specified"@,
            Error::AuthConflict => "auth must be unset or JWT if authorization is enabled"@,
        }
    }

    /// The position of the offending element, where the failure is about one.
    pub open spec fn at(self) -> Option<usize> {
        match self {
            Error::ConfigFileNotTemplate(i) => Some(i),
            Error::UnknownDependency(i) => Some(i),
            Error::MissingApiVersion(i) => Some(i),
            Error::InvalidApiVersion(i) => Some(i),
            Error::UnsupportedRegion(i) => Some(i),
            Error::InitContainerImage(i) => Some(i),
            Error::InitContainerCommand(i) => Some(i),
            Error::InvalidKeyPath(i) => Some(i),
            Error::SecretNotFound(i) => Some(i),
            _ => None,
        }
    }

    /// The kind of the failure.
    pub open spec fn category_of(self) -> Category {
        match self {
            Error::InvalidKeyPath(_)
            | Error::InvalidRegion
            | Error::MissingVaultUrl
            | Error::MissingVaultFolder
            | Error::VaultFolderWithSlash
            | Error::MissingAuditRevision
            | Error::AuthConflict => Category::Config,
            Error::SecretNotFound(_) | Error::WebhookSecretNotFound => Category::Secret,
            _ => Category::Validation,
        }
    }

    /// The kind of the failure.
    pub fn category(&self) -> (r: Category)
        ensures
            r == self.category_of(),
    {
        match self {
            Error::InvalidKeyPath(_)
            | Error::InvalidRegion
            | Error::MissingVaultUrl
            | Error::MissingVaultFolder
            | Error::VaultFolderWithSlash
            | Error::MissingAuditRevision
            | Error::AuthConflict => Category::Config,
            Error::SecretNotFound(_) | Error::WebhookSecretNotFound => Category::Secret,
            _ => Category::Validation,
        }
    }

    /// The failure in words.
    pub fn message(&self) -> (r: String)
        ensures
            r@ == self.text(),
    {
        match self {
            Error::EmptyName => "Name cannot be empty".to_owned(),
            Error::MissingResources => "Resource requests and limits must be declared".to_owned(),
            Error::InvalidNumber => "Resource amount is not a number".to_owned(),
            Error::NumberTooLarge => "Resource amount is too large".to_owned(),
            Error::UnknownUnit => "Unknown unit".to_owned(),
            Error::CpuRequestAboveLimit => "Requested more CPU than what was limited".to_owned(),
            Error::MemoryRequestAboveLimit => "Requested more memory than what was limited".to_owned(),
            Error::CpuRequestTooHigh => "Requested more than 10 cores".to_owned(),
            Error::MemoryRequestTooHigh => "Requested more than 10 GB of memory".to_owned(),
            Error::CpuLimitTooHigh => "CPU limit set to more than 20 cores".to_owned(),
            Error::MemoryLimitTooHigh => "Memory limit set to more than 20 GB of memory".to_owned(),
            Error::EmptyMountPath => "Empty mountpath for config mount".to_owned(),
            Error::MountPathWithoutSlash => "Mount path for configs must end with a slash".to_owned(),
            Error::ConfigFileNotTemplate(_) => "Config files must be templates".to_owned(),
            Error::UnknownDependency(_) => "Dependency does not exist in services/".to_owned(),
            Error::MissingApiVersion(_) => "Dependency has no api version".to_owned(),
            Error::InvalidApiVersion(_) => "Api version of dependency is not a number".to_owned(),
            Error::UnsupportedRegion(_) => "Unsupported region without region file".to_owned(),
            Error::NoRegions => "No regions specified".to_owned(),
            Error::InitContainerImage(_) => "The init container does not seem to match a valid image registry".to_owned(),
            Error::InitContainerCommand(_) => "A command must be specified for the init container".to_owned(),
            Error::BadPattern => "A pattern was not accepted".to_owned(),
            Error::MissingHealthCheck => "Service has an httpPort but no health check".to_owned(),
            Error::InvalidKeyPath(_) => "Environment variable does not have a valid key path".to_owned(),
            Error::SecretNotFound(_) => "Secret does not have the 'value' key".to_owned(),
            Error::WebhookSecretNotFound => "Webhook secret does not have the 'value' key".to_owned(),
            Error::InvalidRegion => "Invalid region".to_owned(),
            Error::MissingVaultUrl => "Need to set vault url".to_owned(),
            Error::MissingVaultFolder => "Need to set the vault folder".to_owned(),
            Error::VaultFolderWithSlash => "Vault config folder cannot contain slashes".to_owned(),
            Error::IllegalTag => "Illegal tag (floating tags cannot be rolled back please use 40 char git sha or semver)".to_owned(),
            Error::NotSemver => "Version is not a semver version in a region using semver versions".to_owned(),
            Error::MissingAuditRevision => "SHIPCAT_AUDIT_REVISION not specified".to_owned(),
            Error::AuthConflict => "auth must be unset or JWT if authorization is enabled".to_owned(),
        }
    }

    /// The position of the offending element, where the failure is about one.
    pub fn position(&self) -> (r: Option<usize>)
        ensures
            r == self.at(),
    {
        match self {
            Error::ConfigFileNotTemplate(i) => Some(*i),
            Error::UnknownDependency(i) => Some(*i),
            Error::MissingApiVersion(i) => Some(*i),
            Error::InvalidApiVersion(i) => Some(*i),
            Error::UnsupportedRegion(i) => Some(*i),
            Error::InitContainerImage(i) => Some(*i),
            Error::InitContainerCommand(i) => Some(*i),
            Error::InvalidKeyPath(i) => Some(*i),
            Error::SecretNotFound(i) => Some(*i),
            _ => None,
        }
    }
}

} // verus!
