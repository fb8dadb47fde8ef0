//! The command line: global options and the command tree. Parsing the words of the
//! command line into these values happens at the edge of the program.
use vstd::prelude::*;

verus! {

/// The parsed command line.
#[derive(Debug)]
pub struct Cli {
    /// Print raw JSON instead of YAML, for scripting.
    pub json: bool,
    /// TV account name (see 'samsung-artmode accounts list').
    pub account: Option<String>,
    /// TV IP address or hostname (overrides account host or SAMSUNG_TV_HOST).
    pub host: Option<String>,
    /// TV authentication token (overrides account token or SAMSUNG_TV_TOKEN).
    pub token: Option<String>,
    /// Print WebSocket messages and network trace to stderr.
    pub verbose: bool,
    pub command: Command,
}

/// The commands.
#[derive(Debug)]
pub enum Command {
    /// Pair with a Samsung Frame TV and acquire an auth token.
    Pair { host: Option<String>, name: Option<String>, timeout: u64 },
    /// Log in / pair with a Samsung Frame TV (the same as `pair`).
    Login { host: Option<String>, name: Option<String>, timeout: u64 },
    /// Get current Art Mode status (on/off).
    Status,
    /// List artwork images on the TV.
    List { category: Option<String> },
    /// Get the currently displayed artwork.
    Current,
    /// Select an image to display on the TV.
    Select { content_id: String, show: bool },
    /// Upload an image (PNG or JPEG) to the TV.
    Upload { file: String, matte: Option<String>, select: bool },
    /// Delete an image from the TV.
    Delete { content_id: String },
    /// Add or remove an image from favorites.
    Favorite { content_id: String, remove: bool },
    /// Display brightness controls.
    Brightness(Brightness),
    /// Matte/frame border controls.
    Matte(Matte),
    /// Configure slideshow settings.
    Slideshow { off: bool, interval: Option<u32>, category: String, shuffle: bool },
    /// Manage configured TV devices and auth tokens.
    Accounts(Accounts),
    /// Print the operating manual for an LLM agent driving this CLI.
    AgentReadme,
}

/// Brightness commands.
#[derive(Debug)]
pub enum Brightness {
    /// Get current brightness (0-10).
    Get,
    /// Set brightness (0-10); the `set` command.
    Change { value: u8 },
}

/// Matte commands.
#[derive(Debug)]
pub enum Matte {
    /// List available matte styles.
    List,
    /// Apply a matte to an image; the `set` command.
    Apply { content_id: String, matte_id: String },
}

/// Account commands.
#[derive(Debug)]
pub enum Accounts {
    /// List configured TV devices.
    List,
    /// Add or update a TV device.
    Add {
        name: String,
        host: String,
        token: Option<String>,
        mac: Option<String>,
        model: Option<String>,
        force: bool,
    },
    /// Test connection to a configured TV.
    Test { name: String },
    /// Remove a configured TV device and delete its token from keystore.
    Remove { name: String, yes: bool },
}

} // verus!
