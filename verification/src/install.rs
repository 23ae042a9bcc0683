//! The steps of one install: what is decided before the download, what the
//! user is asked, where the files go, and what is reported afterwards.

use crate::address::{homepage_to_show, shown_homepage};
use crate::descriptor::{CompatibilityView, PluginCompatibility};
use crate::error::Error;
use crate::lookup::{lemma_found_is_compatible, resolution, Resolution};
use crate::manager::{
    describe_incompatibility, incompatibility_reason, installed_manifest, plan, InstallAction,
    Plan, PluginManager,
};
use crate::manifest::{
    has_package_for, is_first_package_for, ManifestView, PackageView, PluginManifest,
    PluginPackage, Target,
};
use crate::text::Order;
use crate::version::version_order;
use crate::text::text_views;
use vstd::prelude::*;
use vstd::string::*;

verus! {

/// What an install does first.
#[derive(Debug, PartialEq, Eq)]
pub enum InstallStep {
    /// Nothing: this version is installed. The text says so to the user.
    AlreadyInstalled { message: String },
    /// Ask the user whether to install the package at this position of the
    /// manifest; the text is the question.
    Confirm { package: usize, prompt: String },
    /// Install the package at this position of the manifest without asking.
    Proceed { package: usize },
}

/// What the user is told when the version is installed already.
pub open spec fn already_installed_message(name: Seq<char>, version: Seq<char>) -> Seq<char> {
    "Plugin '"@ + name + "' is already installed with version "@ + version + "."@
}

/// The question that asks the user whether to install.
pub open spec fn install_prompt(m: ManifestView, package: PackageView) -> Seq<char> {
    "Are you sure you want to install plugin '"@ + m.name + "' with license "@ + m.license
        + " from "@ + package.url + "?"@
}

/// What the user is told when they decline.
pub open spec fn declined_message(name: Seq<char>) -> Seq<char> {
    "Plugin '"@ + name + "' will not be installed"@
}

/// What the user is told when the install is done.
pub open spec fn installed_message(name: Seq<char>) -> Seq<char> {
    "Plugin '"@ + name + "' was installed successfully!"@
}

/// The report on a finished install: that it succeeded, then the description
/// if the manifest has one, then the homepage if it is one to show.
pub open spec fn install_report(m: ManifestView, installed_name: Seq<char>) -> Seq<Seq<char>> {
    seq![installed_message(installed_name)] + (match m.description {
        Some(text) => seq!["\nDescription:"@, "\t"@ + text],
        None => Seq::empty(),
    }) + (match shown_homepage(m.homepage) {
        Some(text) => seq!["\nHomepage:"@, "\t"@ + text],
        None => Seq::empty(),
    })
}

/// The name of the file that holds the installed manifest of a plugin.
pub open spec fn manifest_file_name(name: Seq<char>) -> Seq<char> {
    name + ".json"@
}

/// The name under which a file is written before it replaces the file of
/// that name.
pub open spec fn staging_name(file: Seq<char>) -> Seq<char> {
    file + ".tmp"@
}

/// One step of putting the files of an install in place.
#[derive(Debug, PartialEq, Eq)]
pub enum FileStep {
    /// Write the downloaded artifact to the file of this name.
    WriteArtifact(String),
    /// Write the manifest to the file of this name.
    WriteManifest(String),
    /// Rename the first file to the second, replacing the second.
    Replace(String, String),
}

/// What a file step is, as plain values.
pub enum FileStepView {
    WriteArtifact(Seq<char>),
    WriteManifest(Seq<char>),
    Replace(Seq<char>, Seq<char>),
}

impl View for FileStep {
    type V = FileStepView;

    open spec fn view(&self) -> FileStepView {
        match self {
            FileStep::WriteArtifact(file) => FileStepView::WriteArtifact(file@),
            FileStep::WriteManifest(file) => FileStepView::WriteManifest(file@),
            FileStep::Replace(from, to) => FileStepView::Replace(from@, to@),
        }
    }
}

/// The file steps of installing the plugin `name`: the artifact and the
/// manifest are first written under staging names, and only then moved over
/// what was installed under the plugin's name, the artifact before the
/// manifest. A failed write so leaves the earlier version untouched.
pub open spec fn file_steps(name: Seq<char>) -> Seq<FileStepView> {
    seq![
        FileStepView::WriteArtifact(staging_name(name)),
        FileStepView::WriteManifest(staging_name(manifest_file_name(name))),
        FileStepView::Replace(staging_name(name), name),
        FileStepView::Replace(staging_name(manifest_file_name(name)), manifest_file_name(name)),
    ]
}

/// What a list of file steps holds, as plain values.
pub open spec fn step_views(steps: Seq<FileStep>) -> Seq<FileStepView> {
    Seq::new(steps.len(), |i: int| steps[i]@)
}

/// What the planner says of a manifest that a registry lookup found with the
/// compatibility check on: the manifest is compatible with the host, so a
/// plugin that is not installed is installed, and for one that is installed
/// the versions decide. In particular, an older version from the registry is refused as a
/// downgrade unless downgrades are allowed, and the installed version again
/// needs no action.
pub proof fn lemma_plan_of_found(
    registry: Seq<ManifestView>,
    installed: Map<Seq<char>, ManifestView>,
    name: Seq<char>,
    version: Option<Seq<char>>,
    host: Seq<char>,
    target: Target,
    i: int,
    allow_downgrade: bool,
)
    requires
        resolution(registry, name, version, false, host, target) == Resolution::Found(i),
    ensures
        0 <= i < registry.len(),
        registry[i].name == name,
        plan(installed_manifest(installed, name), registry[i], host, target, false, allow_downgrade)
            == (if !installed.contains_key(name) {
            Plan::Install
        } else {
            match version_order(registry[i].version, installed[name].version) {
                Order::Greater => Plan::Install,
                Order::Equal => Plan::NoAction,
                Order::Less => if allow_downgrade {
                    Plan::Install
                } else {
                    Plan::DowngradeNotAllowed
                },
            }
        }),
{
    lemma_found_is_compatible(registry, name, version, host, target, i);
}

/// Appends `tail` to a copy of `head`.
fn joined(head: &str, tail: &str) -> (r: String)
    ensures
        r@ == head@ + tail@,
{
    let mut out = String::from_str(head);
    out.append(tail);
    out
}

/// The file steps of installing a manifest's plugin.
pub fn plan_files(manifest: &PluginManifest) -> (r: Vec<FileStep>)
    ensures
        step_views(r@) == file_steps(manifest@.name),
{
    let name = manifest.name().as_str();
    let manifest_file = joined(name, ".json");
    let staged_artifact = joined(name, ".tmp");
    let staged_manifest = joined(manifest_file.as_str(), ".tmp");
    let mut steps: Vec<FileStep> = Vec::new();
    steps.push(FileStep::WriteArtifact(staged_artifact.clone()));
    steps.push(FileStep::WriteManifest(staged_manifest.clone()));
    steps.push(FileStep::Replace(staged_artifact, String::from_str(name)));
    steps.push(FileStep::Replace(staged_manifest, manifest_file));
    assert(step_views(steps@) =~= file_steps(manifest@.name));
    steps
}

/// The question that asks the user whether to install this package of this
/// manifest.
pub fn confirmation_prompt(manifest: &PluginManifest, package: &PluginPackage) -> (r: String)
    ensures
        r@ == install_prompt(manifest@, package@),
{
    let mut out = String::from_str("Are you sure you want to install plugin '");
    out.append(manifest.name().as_str());
    out.append("' with license ");
    out.append(manifest.license().as_str());
    out.append(" from ");
    out.append(package.url().as_str());
    out.append("?");
    assert(out@ =~= install_prompt(manifest@, package@));
    out
}

/// Whether the install goes on, given the user's answer: only on a plain
/// yes. No answer is a no.
pub fn confirmed(answer: Option<bool>) -> (b: bool)
    ensures
        b == (answer == Some(true)),
{
    match answer {
        Some(yes) => yes,
        None => false,
    }
}

/// What to tell a user who declined.
pub fn declined(manifest: &PluginManifest) -> (r: String)
    ensures
        r@ == declined_message(manifest@.name),
{
    let mut out = String::from_str("Plugin '");
    out.append(manifest.name().as_str());
    out.append("' will not be installed");
    assert(out@ =~= declined_message(manifest@.name));
    out
}

/// Decides the first step of installing `manifest`.
///
/// The planner is asked first, and its refusal is the install's failure. A
/// version that is installed already ends the install with a message. Else
/// the first package for the platform is picked, and a manifest without one
/// is refused as incompatible. The user is asked to confirm unless the
/// command said yes to everything.
pub fn begin_install(
    manager: &PluginManager,
    manifest: &PluginManifest,
    host_version: &str,
    yes_to_all: bool,
    override_compatibility_check: bool,
    allow_downgrade: bool,
) -> (r: Result<InstallStep, Error>)
    ensures
        match plan(
            installed_manifest(manager@.installed, manifest@.name),
            manifest@,
            host_version@,
            manager@.target,
            override_compatibility_check,
            allow_downgrade,
        ) {
            Plan::Install => if has_package_for(manifest@, manager@.target) {
                if yes_to_all {
                    &&& r matches Ok(InstallStep::Proceed { package })
                    &&& is_first_package_for(manifest@, manager@.target, package as int)
                } else {
                    &&& r matches Ok(InstallStep::Confirm { package, prompt })
                    &&& is_first_package_for(manifest@, manager@.target, package as int)
                    &&& prompt@ == install_prompt(manifest@, manifest@.packages[package as int])
                }
            } else {
                &&& r matches Err(Error::IncompatibleError(reason))
                &&& reason@ == incompatibility_reason(manifest@, CompatibilityView::Incompatible)
            },
            Plan::NoAction => {
                &&& r matches Ok(InstallStep::AlreadyInstalled { message })
                &&& message@ == already_installed_message(
                    manifest@.name,
                    manager@.installed[manifest@.name].version,
                )
            },
            Plan::Incompatible => {
                &&& r matches Err(Error::IncompatibleError(reason))
                &&& reason@ == incompatibility_reason(
                    manifest@,
                    crate::descriptor::classify(manifest@, host_version@, manager@.target),
                )
            },
            Plan::DowngradeNotAllowed => {
                &&& r matches Err(Error::DowngradeNotAllowed { name, installed, candidate })
                &&& name@ == manifest@.name
                &&& installed@ == manager@.installed[manifest@.name].version
                &&& candidate@ == manifest@.version
            },
        },
{
    let action = manager.check_manifest(
        manifest,
        host_version,
        override_compatibility_check,
        allow_downgrade,
    );
    match action {
        Err(e) => Err(e),
        Ok(InstallAction::NoAction { name, version }) => {
            let mut message = String::from_str("Plugin '");
            message.append(name.as_str());
            message.append("' is already installed with version ");
            message.append(version.as_str());
            message.append(".");
            assert(message@ =~= already_installed_message(name@, version@));
            Ok(InstallStep::AlreadyInstalled { message })
        },
        Ok(InstallAction::Install) => {
            match manifest.package_index_for(manager.target()) {
                None => Err(
                    Error::IncompatibleError(
                        describe_incompatibility(manifest, &PluginCompatibility::Incompatible),
                    ),
                ),
                Some(package) => {
                    if yes_to_all {
                        Ok(InstallStep::Proceed { package })
                    } else {
                        let packages = manifest.packages();
                        assert(crate::manifest::package_views(packages@)[package as int]
                            == packages@[package as int]@);
                        let prompt = confirmation_prompt(manifest, &packages[package]);
                        Ok(InstallStep::Confirm { package, prompt })
                    }
                },
            }
        },
    }
}

/// The lines that report a finished install.
pub fn report_install(manifest: &PluginManifest, installed_name: &str) -> (r: Vec<String>)
    ensures
        text_views(r@) == install_report(manifest@, installed_name@),
{
    let mut lines: Vec<String> = Vec::new();
    let mut first = String::from_str("Plugin '");
    first.append(installed_name);
    first.append("' was installed successfully!");
    assert(first@ =~= installed_message(installed_name@));
    lines.push(first);
    match manifest.description() {
        Some(text) => {
            lines.push(String::from_str("\nDescription:"));
            lines.push(joined("\t", text.as_str()));
        },
        None => {},
    }
    match homepage_to_show(manifest) {
        Some(text) => {
            lines.push(String::from_str("\nHomepage:"));
            lines.push(joined("\t", text.as_str()));
        },
        None => {},
    }
    assert(text_views(lines@) =~= install_report(manifest@, installed_name@));
    lines
}

} // verus!
