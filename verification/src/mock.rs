//! A context for applications under test: one that embeds no assets,
//! configures nothing and grants nothing.

use crate::assets::NoopAsset;
use crate::config::app::{PatternKind, TrayIconConfig};
use crate::config::bundle::BundleConfig;
use crate::config::package::{default_build, BuildConfig, PackageConfig};
use crate::config::security::SecurityConfig;
use crate::effective::CompiledModel;
use crate::resolved::ResolvedAcl;
use vstd::prelude::*;
use vstd::string::*;

verus! {

/// What an application says of its package.
#[derive(Debug, Clone, PartialEq, Eq)]
pub struct PackageInfo {
    /// App name.
    pub name: String,
    /// App version.
    pub version: String,
    /// The crate authors.
    pub authors: &'static str,
    /// The crate description.
    pub description: &'static str,
    /// The crate name.
    pub crate_name: &'static str,
}

/// What an application is started with.
#[derive(Debug, Clone, PartialEq, Eq)]
pub struct Context {
    /// The package configuration.
    pub package: PackageConfig,
    /// The application pattern.
    pub pattern: PatternKind,
    /// The bundler configuration.
    pub bundle: BundleConfig,
    /// The security configuration.
    pub security: SecurityConfig,
    /// The tray icon, if the application has one.
    pub tray_icon: Option<TrayIconConfig>,
    /// Whether the private API of macOS is used.
    pub macos_private_api: bool,
    /// The build configuration.
    pub build: BuildConfig,
    /// The assets that the application embeds.
    pub assets: NoopAsset,
    /// What the application says of its package.
    pub package_info: PackageInfo,
    /// The access control list that calls are answered from.
    pub resolved_acl: ResolvedAcl,
}

/// Creates a new context for testing: a package called `test` in version
/// `0.1.0`, the default build, no tray icon, and an access control list
/// that denies every call.
pub fn mock_context(assets: NoopAsset) -> (context: Context)
    ensures
        context.assets == assets,
        context.package.product_name is None,
        context.package.version is None,
        context.pattern == PatternKind::Brownfield,
        context.tray_icon is None,
        !context.macos_private_api,
        context.bundle.is_default(),
        context.security.is_default(),
        context.build.is_default(),
        context.package_info.name@ == "test"@,
        context.package_info.version@ == "0.1.0"@,
        context.package_info.authors@ == "Tauri"@,
        context.package_info.description@ == "Tauri test"@,
        context.package_info.crate_name@ == "test"@,
        context.resolved_acl.wf(),
        context.resolved_acl@.compiled == Seq::<CompiledModel>::empty(),
        context.resolved_acl@.windows == Set::<Seq<char>>::empty(),
{
    Context {
        package: PackageConfig { product_name: None, version: None },
        pattern: PatternKind::Brownfield,
        bundle: BundleConfig::default(),
        security: SecurityConfig::default(),
        tray_icon: None,
        macos_private_api: false,
        build: default_build(),
        assets,
        package_info: PackageInfo {
            name: "test".to_owned(),
            version: "0.1.0".to_owned(),
            authors: "Tauri",
            description: "Tauri test",
            crate_name: "test",
        },
        resolved_acl: ResolvedAcl::empty(),
    }
}

} // verus!
