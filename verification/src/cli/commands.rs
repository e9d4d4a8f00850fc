//! Parsed CLI commands and CLI errors.

use vstd::prelude::*;

use crate::config::schema::{CliOverrides, CliOverridesView, opt_view};

verus! {

/// CLI parsing error.
#[derive(Clone, Debug, PartialEq, Eq)]
pub struct CliError {
    message: String,
}

impl CliError {
    /// Creates a CLI error.
    pub fn new(message: String) -> (e: Self)
        ensures
            e@ == message@,
    {
        CliError { message }
    }

    /// The error message.
    pub fn message(&self) -> (m: String)
        ensures
            m@ == self@,
    {
        self.message.clone()
    }
}

impl View for CliError {
    type V = Seq<char>;

    closed spec fn view(&self) -> Seq<char> {
        self.message@
    }
}

/// Watch output format.
#[derive(Clone, Copy, Debug, PartialEq, Eq, Structural)]
pub enum WatchOutput {
    /// JSON output.
    Json,
    /// NDJSON output.
    Ndjson,
}

/// Parsed remote monitor command.
#[derive(Clone, Debug, PartialEq, Eq)]
pub enum RemoteCommand {
    /// Run a remote agent that serves one client connection.
    Agent {
        /// Address to bind.
        address: String,
        /// Node name.
        node: String,
        /// Authentication token.
        token: String,
    },
    /// Connect to a remote agent.
    Connect {
        /// Address to connect.
        address: String,
        /// Local node name.
        node: String,
        /// Authentication token.
        token: String,
    },
}

/// Parsed CLI command.
#[derive(Clone, Debug, PartialEq, Eq)]
pub enum CliCommand {
    /// Run Rumon with the supplied overrides.
    Run(CliOverrides),
    /// Explicit TUI command.
    Tui(CliOverrides),
    /// Machine-readable watch command.
    Watch {
        /// CLI overrides.
        overrides: CliOverrides,
        /// Output format.
        format: WatchOutput,
    },
    /// HTTP integration server command.
    Server {
        /// CLI overrides.
        overrides: CliOverrides,
        /// Host override.
        host: Option<String>,
        /// Port override.
        port: Option<u16>,
    },
    /// Local IPC daemon command.
    Daemon {
        /// CLI overrides.
        overrides: CliOverrides,
        /// Whether IPC was explicitly requested.
        ipc: bool,
    },
    /// Create a starter rumon.toml in the current project.
    Init,
    /// Run a remote monitor subcommand.
    Remote(RemoteCommand),
    /// Print help.
    Help,
    /// Print version.
    Version,
}

pub enum RemoteCommandView {
    Agent { address: Seq<char>, node: Seq<char>, token: Seq<char> },
    Connect { address: Seq<char>, node: Seq<char>, token: Seq<char> },
}

pub enum CliCommandView {
    Run(CliOverridesView),
    Tui(CliOverridesView),
    Watch { overrides: CliOverridesView, format: WatchOutput },
    Server { overrides: CliOverridesView, host: Option<Seq<char>>, port: Option<u16> },
    Daemon { overrides: CliOverridesView, ipc: bool },
    Init,
    Remote(RemoteCommandView),
    Help,
    Version,
}

impl View for RemoteCommand {
    type V = RemoteCommandView;

    open spec fn view(&self) -> RemoteCommandView {
        match self {
            RemoteCommand::Agent { address, node, token } => RemoteCommandView::Agent {
                address: address@,
                node: node@,
                token: token@,
            },
            RemoteCommand::Connect { address, node, token } => RemoteCommandView::Connect {
                address: address@,
                node: node@,
                token: token@,
            },
        }
    }
}

impl View for CliCommand {
    type V = CliCommandView;

    open spec fn view(&self) -> CliCommandView {
        match self {
            CliCommand::Run(o) => CliCommandView::Run(o@),
            CliCommand::Tui(o) => CliCommandView::Tui(o@),
            CliCommand::Watch { overrides, format } => CliCommandView::Watch {
                overrides: overrides@,
                format: *format,
            },
            CliCommand::Server { overrides, host, port } => CliCommandView::Server {
                overrides: overrides@,
                host: opt_view(*host),
                port: *port,
            },
            CliCommand::Daemon { overrides, ipc } => CliCommandView::Daemon {
                overrides: overrides@,
                ipc: *ipc,
            },
            CliCommand::Init => CliCommandView::Init,
            CliCommand::Remote(r) => CliCommandView::Remote(r@),
            CliCommand::Help => CliCommandView::Help,
            CliCommand::Version => CliCommandView::Version,
        }
    }
}

} // verus!
