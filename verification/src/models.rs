//! Data model: configuration records, launch results, process metadata
//! and the lifecycle status enum.

use vstd::prelude::*;

use crate::host::home_directory;
use crate::text::{dec_rep, joined_path, path_join, u64_to_string};

verus! {

/// Global application configuration, as consumed by the launcher.
///
/// `active_executable_version` names an installed version under
/// `<executable_folder>/versions`; `active_executable_folder` is an
/// absolute folder path. The version name takes precedence when both
/// are present.
#[derive(Clone, Debug)]
pub struct GlobalConfig {
    pub models_directory: String,
    pub executable_folder: String,
    pub active_executable_folder: Option<String>,
    pub active_executable_version: Option<String>,
    pub theme_color: String,
}

/// The directory all of this application's data lives under, relative
/// to a home directory (which may be unknown and empty).
pub open spec fn base_dir_of(home: Seq<char>) -> Seq<char> {
    if home.len() == 0 {
        ".llama-os"@
    } else {
        joined_path(home, ".llama-os"@)
    }
}

impl GlobalConfig {
    /// The initial configuration rooted under the given home directory:
    /// models and executables under the application's base directory,
    /// no active version selected, and the default theme.
    pub fn initial(home: &str) -> (c: GlobalConfig)
        ensures
            c.models_directory@ == joined_path(base_dir_of(home@), "models"@),
            c.executable_folder@ == joined_path(base_dir_of(home@), "llama.cpp"@),
            c.active_executable_folder is None,
            c.active_executable_version is None,
            c.theme_color@ == "dark-gray"@,
    {
        let base: String = if home.is_empty() {
            ".llama-os".to_owned()
        } else {
            path_join(home, ".llama-os")
        };
        GlobalConfig {
            models_directory: path_join(base.as_str(), "models"),
            executable_folder: path_join(base.as_str(), "llama.cpp"),
            active_executable_folder: None,
            active_executable_version: None,
            theme_color: "dark-gray".to_owned(),
        }
    }
}

impl Default for GlobalConfig {
    /// The initial configuration rooted under the user's home directory
    /// as the host reports it (or under a relative base directory when
    /// the host reports none).
    fn default() -> (c: GlobalConfig)
        ensures
            exists|home: Seq<char>|
                {
                    &&& #[trigger] c.models_directory@ == joined_path(base_dir_of(home), "models"@)
                    &&& c.executable_folder@ == joined_path(base_dir_of(home), "llama.cpp"@)
                },
            c.active_executable_folder is None,
            c.active_executable_version is None,
            c.theme_color@ == "dark-gray"@,
    {
        let home = match home_directory() {
            Some(h) => h,
            None => String::new(),
        };
        GlobalConfig::initial(home.as_str())
    }
}

/// Per-model launch configuration, keyed by model path.
#[derive(Clone, Debug)]
pub struct ModelConfig {
    pub custom_args: String,
    pub server_host: String,
    pub server_port: u16,
    pub model_path: String,
}

impl ModelConfig {
    /// The default configuration for a model: no custom arguments,
    /// loopback host, port 8080.
    pub fn new(model_path: String) -> (c: ModelConfig)
        ensures
            c.custom_args@ == Seq::<char>::empty(),
            c.server_host@ == "127.0.0.1"@,
            c.server_port == 8080,
            c.model_path == model_path,
    {
        ModelConfig {
            custom_args: String::new(),
            server_host: "127.0.0.1".to_owned(),
            server_port: 8080,
            model_path,
        }
    }
}

/// Metadata read out of a model file header.
#[derive(Clone, Debug)]
pub struct GgufMetadata {
    pub architecture: String,
    pub name: String,
}

/// Lifecycle status of a launched process.
///
/// `Starting` is the initial state, `Running` is entered when output
/// capture begins, and `Stopped` is terminal. `Failed` is reserved for
/// spawn-time errors; such processes never enter the registry, so no
/// registry operation assigns it.
#[derive(Clone, Copy, PartialEq, Eq, Structural, Debug)]
pub enum ProcessStatus {
    Starting,
    Running,
    Stopped,
    Failed,
}

/// What a successful launch reports back to the caller.
#[derive(Clone, Debug)]
pub struct LaunchResult {
    pub success: bool,
    pub process_id: String,
    pub server_host: String,
    pub server_port: u16,
    pub model_name: String,
    pub message: String,
}

impl LaunchResult {
    /// What a managed launch reports: the issued identifier (rendered
    /// in decimal), the resolved host and port, and the model's display
    /// name.
    pub fn for_managed(id: u64, server_host: String, server_port: u16, model_name: String) -> (r:
        LaunchResult)
        ensures
            r.success,
            r.process_id@ == dec_rep(id as nat),
            r.server_host == server_host,
            r.server_port == server_port,
            r.model_name == model_name,
            r.message@ == "Model server launched successfully"@,
    {
        LaunchResult {
            success: true,
            process_id: u64_to_string(id),
            server_host,
            server_port,
            model_name,
            message: "Model server launched successfully".to_owned(),
        }
    }

    /// What an external (unmanaged, new-terminal) launch reports: no
    /// identifier is issued, so none is tracked and none can be killed.
    pub fn for_external(server_host: String, server_port: u16, model_name: String) -> (r:
        LaunchResult)
        ensures
            r.success,
            r.process_id@ == "external"@,
            r.server_host == server_host,
            r.server_port == server_port,
            r.model_name == model_name,
            r.message@ == "Model launched in external terminal"@,
    {
        LaunchResult {
            success: true,
            process_id: "external".to_owned(),
            server_host,
            server_port,
            model_name,
            message: "Model launched in external terminal".to_owned(),
        }
    }
}

/// One poll of a process's output: the lines appended since the
/// previous poll, and whether the process is still live.
#[derive(Clone, Debug)]
pub struct ProcessOutput {
    pub output: Vec<String>,
    pub is_running: bool,
    pub return_code: Option<i32>,
}

/// Placement of a window on screen.
#[derive(Clone, Debug)]
pub struct Position {
    pub x: i32,
    pub y: i32,
}

/// Extent of a window on screen.
#[derive(Clone, Debug)]
pub struct Size {
    pub width: u32,
    pub height: u32,
}

/// Persisted state of one UI window.
#[derive(Clone, Debug)]
pub struct WindowState {
    pub window_type: String,
    pub title: String,
    pub content: String,
    pub position: Position,
    pub size: Size,
    pub visible: bool,
    pub z_index: u32,
}

/// Persisted state of one terminal view attached to a process.
#[derive(Clone, Debug)]
pub struct TerminalState {
    pub process_id: String,
    pub model_name: String,
    pub model_path: String,
    pub host: String,
    pub port: u16,
    pub status: String,
    pub output: Vec<String>,
}

/// Persisted desktop layout.
#[derive(Clone, Debug)]
pub struct DesktopState {
    pub icon_positions: std::collections::HashMap<String, Position>,
    pub sort_type: Option<String>,
    pub sort_direction: String,
    pub theme: String,
}

impl Default for DesktopState {
    /// An empty desktop, sorted ascending, with the default theme.
    fn default() -> (d: DesktopState)
        ensures
            d.sort_type is None,
            d.sort_direction@ == "asc"@,
            d.theme@ == "navy"@,
    {
        DesktopState {
            icon_positions: std::collections::HashMap::new(),
            sort_type: None,
            sort_direction: "asc".to_owned(),
            theme: "navy".to_owned(),
        }
    }
}

/// A page of model search results.
#[derive(Clone, Debug)]
pub struct SearchResult {
    pub success: bool,
    pub models: Vec<ModelBasic>,
    pub total: usize,
}

/// Summary entry of a remotely listed model.
#[derive(Clone, Debug)]
pub struct ModelBasic {
    pub id: String,
    pub name: String,
    pub author: String,
    pub downloads: u64,
    pub likes: u64,
    pub last_modified: Option<String>,
}

/// Detailed listing of a remotely listed model.
#[derive(Clone, Debug)]
pub struct ModelDetails {
    pub id: String,
    pub name: String,
    pub author: String,
    pub description: Option<String>,
    pub downloads: u64,
    pub likes: u64,
    pub total_files: u32,
    pub gguf_files: std::collections::HashMap<String, GgufFileInfo>,
}

/// One downloadable model file.
#[derive(Clone, Debug)]
pub struct GgufFileInfo {
    pub filename: String,
    pub size: u64,
    pub quantization_type: Option<String>,
}

/// The files that make up one quantization of a model.
#[derive(Clone, Debug)]
pub struct QuantizationInfo {
    pub files: Vec<String>,
    pub size: u64,
    pub primary_file: String,
}

/// Acknowledgement that a download was started.
#[derive(Clone, Debug)]
pub struct DownloadStartResult {
    pub download_id: String,
    pub message: String,
}

} // verus!
