//! Making a host known to the browser: the manifest that describes it, and the
//! plans for writing it to disk and for entering it in the registry.
//!
//! Nothing here touches the disk or the registry. A plan names the next
//! operation; the caller performs it and reports what it came to.

use vstd::prelude::*;

verus! {

/// Why a setup did not go through.
#[derive(Clone, Copy, PartialEq, Eq, Debug, Structural)]
pub enum Error {
    /// A registry key for the host could be neither opened nor created.
    ErrorCreatingProjectKey,
    /// The manifest's location could not be written to the host's key.
    ErrorWritingProjectKey,
    /// The browser's own registry key is not there.
    FirefoxNotFound,
    /// The manifest's location holds a NUL and cannot go into the registry.
    InvalidJsonPath,
    /// The launcher script or the manifest could not be written to disk.
    ErrorWritingConfigData,
}

impl Error {
    /// The text that describes the error to a person.
    pub open spec fn text(self) -> Seq<char> {
        match self {
            Error::ErrorCreatingProjectKey => "Error creating project key in registry"@,
            Error::ErrorWritingProjectKey => "Error writing project key to registry"@,
            Error::FirefoxNotFound => "Firefox not found or installed"@,
            Error::InvalidJsonPath => "JSON path cannot be written to registry"@,
            Error::ErrorWritingConfigData => "Error writing config data"@,
        }
    }

    /// Describes the error to a person.
    pub fn message(&self) -> (text: String)
        ensures
            text@ == self.text(),
    {
        match self {
            Error::ErrorCreatingProjectKey => "Error creating project key in registry".to_owned(),
            Error::ErrorWritingProjectKey => "Error writing project key to registry".to_owned(),
            Error::FirefoxNotFound => "Firefox not found or installed".to_owned(),
            Error::InvalidJsonPath => "JSON path cannot be written to registry".to_owned(),
            Error::ErrorWritingConfigData => "Error writing config data".to_owned(),
        }
    }
}

/// A native messaging manifest: what the browser reads to find and launch the
/// host.
#[derive(Debug, PartialEq, Clone)]
pub struct Host {
    /// The name under which extensions address the host.
    pub name: String,
    /// A description for people.
    pub description: String,
    /// Where the program that the browser launches is.
    pub path: String,
    /// How the browser talks to the host.
    pub _type: String,
    /// The extensions that may talk to the host.
    pub allowed_extensions: Vec<String>,
}

/// A manifest as contracts speak of it.
pub ghost struct HostView {
    pub name: Seq<char>,
    pub description: Seq<char>,
    pub path: Seq<char>,
    pub _type: Seq<char>,
    pub allowed_extensions: Seq<Seq<char>>,
}

impl View for Host {
    type V = HostView;

    open spec fn view(&self) -> HostView {
        HostView {
            name: self.name@,
            description: self.description@,
            path: self.path@,
            _type: self._type@,
            allowed_extensions: self.allowed_extensions@.map_values(|id: String| id@),
        }
    }
}

/// The manifest of a host that talks over its standard streams to one
/// extension.
pub open spec fn stdio_host(
    name: Seq<char>,
    description: Seq<char>,
    path: Seq<char>,
    extension_id: Seq<char>,
) -> HostView {
    HostView { name, description, path, _type: "stdio"@, allowed_extensions: seq![extension_id] }
}

impl Host {
    /// Makes the manifest of a host that talks over its standard streams and
    /// admits the one extension `extension_id`.
    pub fn stdio(name: &str, description: &str, path: &str, extension_id: &str) -> (host: Host)
        ensures
            host@ == stdio_host(name@, description@, path@, extension_id@),
    {
        let mut allowed_extensions: Vec<String> = Vec::new();
        allowed_extensions.push(extension_id.to_owned());
        let host = Host {
            name: name.to_owned(),
            description: description.to_owned(),
            path: path.to_owned(),
            _type: "stdio".to_owned(),
            allowed_extensions,
        };
        assert(host@.allowed_extensions =~= seq![extension_id@]);
        host
    }
}

/// The registry key, beneath the current user's hive, that the browser keeps.
pub const FIREFOX_ROOT_KEY: &'static str = r"Software\\Mozilla\\";

/// The key, beneath the browser's, that holds one key for each host.
pub const HOSTS_KEY: &'static str = "NativeMessagingHosts";

/// One of the two keys that a setup opens beneath the browser's key.
#[derive(Clone, Copy, PartialEq, Eq, Debug, Structural)]
pub enum Subkey {
    /// The key that holds all hosts, beneath the browser's key.
    Hosts,
    /// The key of this host, beneath the key that holds all hosts.
    Program,
}

/// The name under which a subkey stands in the key above it.
pub fn subkey_name(subkey: Subkey, program_name: &str) -> (name: String)
    ensures
        name@ == (match subkey {
            Subkey::Hosts => HOSTS_KEY@,
            Subkey::Program => program_name@,
        }),
{
    match subkey {
        Subkey::Hosts => HOSTS_KEY.to_owned(),
        Subkey::Program => program_name.to_owned(),
    }
}

/// What an operation on the registry came to.
#[derive(Clone, Copy, PartialEq, Eq, Debug, Structural)]
pub enum Outcome {
    /// It went through.
    Done,
    /// The key it asked for is not there.
    NotFound,
    /// It failed for another reason.
    Failed,
}

/// The next thing to do in the registry, or the end of the setup.
///
/// Every operation but the first works on the key that the last successful
/// open or create gave.
#[derive(Debug, PartialEq)]
pub enum RegistryStep {
    /// Open the browser's key, `FIREFOX_ROOT_KEY`, in the current user's hive.
    OpenRoot,
    /// Open this subkey of the current key.
    OpenSubkey(Subkey),
    /// Create this subkey of the current key.
    CreateSubkey(Subkey),
    /// Set the default value of the current key to this string of UTF-16.
    SetDefaultValue(Vec<u16>),
    /// Nothing more: the setup ended so.
    Finished(Result<(), Error>),
}

/// A step as contracts speak of it.
pub ghost enum RegistryStepView {
    OpenRoot,
    OpenSubkey(Subkey),
    CreateSubkey(Subkey),
    SetDefaultValue(Seq<u16>),
    Finished(Result<(), Error>),
}

impl View for RegistryStep {
    type V = RegistryStepView;

    open spec fn view(&self) -> RegistryStepView {
        match *self {
            RegistryStep::OpenRoot => RegistryStepView::OpenRoot,
            RegistryStep::OpenSubkey(subkey) => RegistryStepView::OpenSubkey(subkey),
            RegistryStep::CreateSubkey(subkey) => RegistryStepView::CreateSubkey(subkey),
            RegistryStep::SetDefaultValue(units) => RegistryStepView::SetDefaultValue(units@),
            RegistryStep::Finished(result) => RegistryStepView::Finished(result),
        }
    }
}

/// The UTF-16 code units of `text`, as `U16CString::from_str` of utfx makes
/// them before it looks for a NUL among them.
pub uninterp spec fn utf16_units(text: Seq<char>) -> Seq<u16>;

/// `utfx::U16CString::from_str`, with the string it gives taken as its code
/// units, the closing NUL left off.
///
/// It turns `text` into UTF-16 and refuses it exactly when a NUL is among the
/// units, which is when `text` holds the character NUL.
#[verifier::external_body]
fn wide_string(text: &str) -> (wide: Option<Vec<u16>>)
    ensures
        wide is Some <==> !text@.contains('\0'),
        wide matches Some(units) ==> units@ == utf16_units(text@),
{
    match utfx::U16CString::from_str(text) {
        Ok(wide) => Some(wide.into_vec()),
        Err(_) => None,
    }
}

/// What follows once a subkey is at hand, opened or created: beneath the
/// hosts' key comes the program's key, and into the program's key goes the
/// manifest's location, if it can be written as a registry string.
pub open spec fn step_within(subkey: Subkey, json_location: Seq<char>) -> RegistryStepView {
    match subkey {
        Subkey::Hosts => RegistryStepView::OpenSubkey(Subkey::Program),
        Subkey::Program => if json_location.contains('\0') {
            RegistryStepView::Finished(Err(Error::InvalidJsonPath))
        } else {
            RegistryStepView::SetDefaultValue(utf16_units(json_location))
        },
    }
}

/// The step that follows `step` when `step` came to `outcome`.
///
/// A subkey that is not there is created; any other failure ends the setup
/// with the error of the stage it struck. A finished setup stays as it is.
pub open spec fn registry_step_after(
    step: RegistryStepView,
    outcome: Outcome,
    json_location: Seq<char>,
) -> RegistryStepView {
    match step {
        RegistryStepView::OpenRoot => match outcome {
            Outcome::Done => RegistryStepView::OpenSubkey(Subkey::Hosts),
            _ => RegistryStepView::Finished(Err(Error::FirefoxNotFound)),
        },
        RegistryStepView::OpenSubkey(subkey) => match outcome {
            Outcome::Done => step_within(subkey, json_location),
            Outcome::NotFound => RegistryStepView::CreateSubkey(subkey),
            Outcome::Failed => RegistryStepView::Finished(Err(Error::ErrorCreatingProjectKey)),
        },
        RegistryStepView::CreateSubkey(subkey) => match outcome {
            Outcome::Done => step_within(subkey, json_location),
            _ => RegistryStepView::Finished(Err(Error::ErrorCreatingProjectKey)),
        },
        RegistryStepView::SetDefaultValue(_) => match outcome {
            Outcome::Done => RegistryStepView::Finished(Ok(())),
            _ => RegistryStepView::Finished(Err(Error::ErrorWritingProjectKey)),
        },
        RegistryStepView::Finished(result) => RegistryStepView::Finished(result),
    }
}

/// What follows once `subkey` is at hand.
fn enter_subkey(subkey: Subkey, json_location: &str) -> (next: RegistryStep)
    ensures
        next@ == step_within(subkey, json_location@),
{
    match subkey {
        Subkey::Hosts => RegistryStep::OpenSubkey(Subkey::Program),
        Subkey::Program => match wide_string(json_location) {
            Some(units) => RegistryStep::SetDefaultValue(units),
            None => RegistryStep::Finished(Err(Error::InvalidJsonPath)),
        },
    }
}

/// Registers a host with the browser, one registry operation at a time:
/// given the step just performed and what it came to, returns the next.
///
/// The setup starts at `RegistryStep::OpenRoot`. It opens the browser's key,
/// opens or creates the hosts' key beneath it and the program's key beneath
/// that, and sets the default value of the program's key to `json_location`,
/// the place of the manifest.
pub fn firefox_registry_setup(
    step: RegistryStep,
    outcome: Outcome,
    json_location: &str,
) -> (next: RegistryStep)
    ensures
        next@ == registry_step_after(step@, outcome, json_location@),
{
    match step {
        RegistryStep::OpenRoot => match outcome {
            Outcome::Done => RegistryStep::OpenSubkey(Subkey::Hosts),
            _ => RegistryStep::Finished(Err(Error::FirefoxNotFound)),
        },
        RegistryStep::OpenSubkey(subkey) => match outcome {
            Outcome::Done => enter_subkey(subkey, json_location),
            Outcome::NotFound => RegistryStep::CreateSubkey(subkey),
            Outcome::Failed => RegistryStep::Finished(Err(Error::ErrorCreatingProjectKey)),
        },
        RegistryStep::CreateSubkey(subkey) => match outcome {
            Outcome::Done => enter_subkey(subkey, json_location),
            _ => RegistryStep::Finished(Err(Error::ErrorCreatingProjectKey)),
        },
        RegistryStep::SetDefaultValue(_) => match outcome {
            Outcome::Done => RegistryStep::Finished(Ok(())),
            _ => RegistryStep::Finished(Err(Error::ErrorWritingProjectKey)),
        },
        RegistryStep::Finished(result) => RegistryStep::Finished(result),
    }
}

/// The next thing to write to disk, or the end of the setup.
#[derive(Debug, PartialEq)]
pub enum FilesStep {
    /// Write the launcher script to the script's path.
    WriteScript,
    /// Write this manifest, as JSON, to the manifest's path.
    WriteManifest(Host),
    /// Nothing more: the setup ended so, with the manifest's path if both
    /// files were written.
    Finished(Result<String, Error>),
}

/// A step as contracts speak of it.
pub ghost enum FilesStepView {
    WriteScript,
    WriteManifest(HostView),
    Finished(Result<Seq<char>, Error>),
}

impl View for FilesStep {
    type V = FilesStepView;

    open spec fn view(&self) -> FilesStepView {
        match *self {
            FilesStep::WriteScript => FilesStepView::WriteScript,
            FilesStep::WriteManifest(host) => FilesStepView::WriteManifest(host@),
            FilesStep::Finished(result) => FilesStepView::Finished(
                match result {
                    Ok(path) => Ok(path@),
                    Err(e) => Err(e),
                },
            ),
        }
    }
}

/// The step that follows `step` when the file of `step` was written, or was
/// not.
///
/// The script comes first. Once it is on disk, the manifest that points to it
/// follows; once that is on disk too, the setup ends with the manifest's
/// path. A file that cannot be written ends the setup at once.
pub open spec fn files_step_after(
    step: FilesStepView,
    written: bool,
    host_path: Seq<char>,
    script_path: Seq<char>,
    extension_id: Seq<char>,
    host_name: Seq<char>,
    host_description: Seq<char>,
) -> FilesStepView {
    match step {
        FilesStepView::Finished(result) => FilesStepView::Finished(result),
        _ => if !written {
            FilesStepView::Finished(Err(Error::ErrorWritingConfigData))
        } else if step is WriteScript {
            FilesStepView::WriteManifest(
                stdio_host(host_name, host_description, script_path, extension_id),
            )
        } else {
            FilesStepView::Finished(Ok(host_path))
        },
    }
}

/// Puts a host's launcher script and manifest on disk, one file at a time:
/// given the step just performed and whether its file was written, returns
/// the next.
///
/// The setup starts at `FilesStep::WriteScript`.
pub fn nmh_files_setup(
    step: FilesStep,
    written: bool,
    host_path: &str,
    script_path: &str,
    extension_id: &str,
    host_name: &str,
    host_description: &str,
) -> (next: FilesStep)
    ensures
        next@ == files_step_after(
            step@,
            written,
            host_path@,
            script_path@,
            extension_id@,
            host_name@,
            host_description@,
        ),
{
    match step {
        FilesStep::Finished(result) => FilesStep::Finished(result),
        FilesStep::WriteScript => if written {
            FilesStep::WriteManifest(
                Host::stdio(host_name, host_description, script_path, extension_id),
            )
        } else {
            FilesStep::Finished(Err(Error::ErrorWritingConfigData))
        },
        FilesStep::WriteManifest(_) => if written {
            FilesStep::Finished(Ok(host_path.to_owned()))
        } else {
            FilesStep::Finished(Err(Error::ErrorWritingConfigData))
        },
    }
}

} // verus!
