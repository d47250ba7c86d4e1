//! The arguments of the program.

use vstd::prelude::*;

verus! {

/// The subcommands.
#[derive(Debug, Clone)]
pub enum ProxyCommand {
    Proxy(ProxyArguments),
    CloneCa(CloneCaArguments),
}

/// Arguments of the CA cloning tool.
#[derive(Debug, Clone)]
pub struct CloneCaArguments {
    /// Folder with all the ROOT CA certificates
    pub input: String,
    /// Where to store cloned certificates
    pub output: String,
    /// Log level. 1=ERROR, 2=Warning, 3=Info, 4=Debug, 5=Trace
    pub log_level: u8,
}

/// Arguments of the proxy.
#[derive(Debug, Clone)]
pub struct ProxyArguments {
    /// Listen port for the proxy
    pub port: u16,
    /// Listen address
    pub addr: String,
    /// List of pinned domains
    pub pinned_domain: Vec<String>,
    /// Folder with all the ROOT CA certificates
    pub root_ca: String,
    /// Log level. 1=ERROR, 2=Warning, 3=Info, 4=Debug, 5=Trace
    pub log_level: u8,
    /// Where to save SCAPs (Socket Captures)
    pub trace_folder: Option<String>,
    /// Count of workers
    pub workers: u16,
    /// Address of the SOCKS5 upstream, as host and port
    pub socks5_server: String,
}

/// The name of a log level: 0 and 1 are `error`, 2 is `warn`, 3 is `info`,
/// 4 is `debug`, and 5 and everything above are `trace`.
pub open spec fn spec_log_level_name(level: u8) -> Seq<char> {
    if level <= 1 {
        "error"@
    } else if level == 2 {
        "warn"@
    } else if level == 3 {
        "info"@
    } else if level == 4 {
        "debug"@
    } else {
        "trace"@
    }
}

/// The name of a log level, as the logger takes it.
pub fn init_log(level: u8) -> (name: &'static str)
    ensures
        name@ == spec_log_level_name(level),
{
    match level {
        5 => "trace",
        4 => "debug",
        3 => "info",
        2 => "warn",
        1 => "error",
        0 => "error",
        _ => "trace",
    }
}

} // verus!
