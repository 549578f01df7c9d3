//! Ports and the processes that hold them.

use crate::text::{decimal_of_nat, push_decimal, str_eq, to_uppercase, uppercase_of};
use vstd::prelude::*;

verus! {

/// Network protocol
#[derive(Debug, Clone, Copy, PartialEq, Eq, Structural)]
pub enum Protocol {
    TCP,
    UDP,
}

impl Protocol {
    /// The name of the protocol.
    pub open spec fn name(self) -> Seq<char> {
        match self {
            Protocol::TCP => "TCP"@,
            Protocol::UDP => "UDP"@,
        }
    }

    /// Renders the name of the protocol.
    pub fn to_string(&self) -> (text: String)
        ensures
            text@ == self.name(),
    {
        match self {
            Protocol::TCP => "TCP".to_owned(),
            Protocol::UDP => "UDP".to_owned(),
        }
    }
}

/// Port/connection state
#[derive(Debug, Clone, Copy, PartialEq, Eq, Structural)]
pub enum PortState {
    /// Listening for connections
    Listen,
    /// Active connection
    Established,
    /// Connection closing
    TimeWait,
    /// Waiting to close
    CloseWait,
    /// Unknown state
    Unknown,
}

impl PortState {
    /// The name of the state.
    pub open spec fn name(self) -> Seq<char> {
        match self {
            PortState::Listen => "LISTEN"@,
            PortState::Established => "ESTABLISHED"@,
            PortState::TimeWait => "TIME_WAIT"@,
            PortState::CloseWait => "CLOSE_WAIT"@,
            PortState::Unknown => "UNKNOWN"@,
        }
    }

    /// Renders the name of the state.
    pub fn to_string(&self) -> (text: String)
        ensures
            text@ == self.name(),
    {
        match self {
            PortState::Listen => "LISTEN".to_owned(),
            PortState::Established => "ESTABLISHED".to_owned(),
            PortState::TimeWait => "TIME_WAIT".to_owned(),
            PortState::CloseWait => "CLOSE_WAIT".to_owned(),
            PortState::Unknown => "UNKNOWN".to_owned(),
        }
    }
}

/// The state that a name in upper case stands for.
pub open spec fn state_named(upper: Seq<char>) -> PortState {
    if upper == "LISTEN"@ || upper == "LISTENING"@ {
        PortState::Listen
    } else if upper == "ESTABLISHED"@ {
        PortState::Established
    } else if upper == "TIME_WAIT"@ {
        PortState::TimeWait
    } else if upper == "CLOSE_WAIT"@ {
        PortState::CloseWait
    } else {
        PortState::Unknown
    }
}

/// Reads the name of a port state, which is given in upper case. A name that
/// stands for no state gives `Unknown`.
pub fn state_from_upper(upper: &str) -> (state: PortState)
    ensures
        state == state_named(upper@),
{
    if str_eq(upper, "LISTEN") || str_eq(upper, "LISTENING") {
        PortState::Listen
    } else if str_eq(upper, "ESTABLISHED") {
        PortState::Established
    } else if str_eq(upper, "TIME_WAIT") {
        PortState::TimeWait
    } else if str_eq(upper, "CLOSE_WAIT") {
        PortState::CloseWait
    } else {
        PortState::Unknown
    }
}

/// Reads the name of a port state as `lsof` and `netstat` print it, in any
/// letter case.
pub fn parse_port_state(state_str: &str) -> (state: PortState)
    ensures
        state == state_named(uppercase_of(state_str@)),
{
    let upper = to_uppercase(state_str);
    state_from_upper(upper.as_str())
}

/// Network traffic statistics
#[derive(Debug, Clone, Copy, PartialEq, Eq, Structural)]
pub struct NetworkTraffic {
    /// Total bytes sent
    pub bytes_sent: u64,
    /// Total bytes received
    pub bytes_received: u64,
    /// Total packets sent
    pub packets_sent: u64,
    /// Total packets received
    pub packets_received: u64,
    /// Number of active connections
    pub connections: u32,
}

impl Default for NetworkTraffic {
    fn default() -> (traffic: Self)
        ensures
            traffic == (NetworkTraffic {
                bytes_sent: 0,
                bytes_received: 0,
                packets_sent: 0,
                packets_received: 0,
                connections: 0,
            }),
    {
        NetworkTraffic {
            bytes_sent: 0,
            bytes_received: 0,
            packets_sent: 0,
            packets_received: 0,
            connections: 0,
        }
    }
}

/// Port information with process details
#[derive(Debug, Clone)]
pub struct PortInfo {
    /// Port number (1-65535)
    pub port: u16,
    /// TCP or UDP
    pub protocol: Protocol,
    /// Process name (e.g., "node", "postgres")
    pub process_name: String,
    /// Process ID
    pub pid: u32,
    /// Port state (LISTEN, ESTABLISHED, etc.)
    pub state: PortState,
    /// Local address (e.g., "127.0.0.1", "0.0.0.0")
    pub local_address: String,
    /// Remote address (for ESTABLISHED connections)
    pub remote_address: Option<String>,
    /// Process command line (for service detection)
    pub command: Option<String>,
    /// Network traffic statistics
    pub traffic: NetworkTraffic,
}

/// The first of `ports` that is bound to the port number `port`.
pub fn find_port(ports: &Vec<PortInfo>, port: u16) -> (found: Option<usize>)
    ensures
        match found {
            Some(i) => i < ports.len() && ports@[i as int].port == port && forall|j: int|
                0 <= j < i ==> (#[trigger] ports@[j]).port != port,
            None => forall|j: int| 0 <= j < ports.len() ==> (#[trigger] ports@[j]).port != port,
        },
{
    let mut i: usize = 0;
    while i < ports.len()
        invariant
            i <= ports.len(),
            forall|j: int| 0 <= j < i ==> (#[trigger] ports@[j]).port != port,
        decreases ports.len() - i,
    {
        if ports[i].port == port {
            return Some(i);
        }
        i = i + 1;
    }
    None
}

/// The family of operating systems that the scanner runs on.
#[derive(Debug, Clone, Copy, PartialEq, Eq, Structural)]
pub enum Platform {
    /// macOS, Linux
    Unix,
    Windows,
}

/// The character that separates the parts of a path on this machine.
///
/// Trusted: reads `std::path::MAIN_SEPARATOR`, which is a backslash on
/// Windows and a slash elsewhere. Nothing is claimed of the result: it
/// depends on the machine.
#[verifier::external_body]
fn path_separator() -> (c: char) {
    std::path::MAIN_SEPARATOR
}

/// A command to run: a program and its arguments.
#[derive(Debug, Clone)]
pub struct ScanCommand {
    pub program: String,
    pub args: Vec<String>,
}

/// Port scanner that uses OS-native commands (lsof/netstat)
#[derive(Debug, Clone, Copy, PartialEq, Eq, Structural)]
pub struct PortScanner {
    platform: Platform,
}

impl PortScanner {
    /// The platform that the scanner works for.
    pub closed spec fn on(self) -> Platform {
        self.platform
    }

    /// Create a new port scanner for the platform of this machine.
    pub fn new() -> (scanner: Self)
        ensures
            scanner.on() is Unix || scanner.on() is Windows,
    {
        Self::for_separator(path_separator())
    }

    /// Create a port scanner for the platform whose paths are written with
    /// the given separator: Windows for a backslash, Unix for anything else.
    pub fn for_separator(separator: char) -> (scanner: Self)
        ensures
            scanner.on() == platform_for(separator),
    {
        if separator == '\\' {
            Self::for_platform(Platform::Windows)
        } else {
            Self::for_platform(Platform::Unix)
        }
    }

    /// Create a port scanner for the given platform.
    pub fn for_platform(platform: Platform) -> (scanner: Self)
        ensures
            scanner.on() == platform,
    {
        PortScanner { platform }
    }

    /// The platform that the scanner works for.
    pub fn platform(&self) -> (platform: Platform)
        ensures
            platform == self.on(),
    {
        self.platform
    }

    /// The command whose output lists the ports that are in use: `lsof`
    /// without name lookups on Unix, `netstat` with pids on Windows.
    pub fn scan_command(&self) -> (command: ScanCommand)
        ensures
            command.program@ == (if self.on() is Unix { "lsof"@ } else { "netstat"@ }),
            command.args.deep_view() == (if self.on() is Unix {
                seq!["-i"@, "-n"@, "-P"@]
            } else {
                seq!["-ano"@]
            }),
    {
        let mut args: Vec<String> = Vec::new();
        match self.platform {
            Platform::Unix => {
                args.push("-i".to_owned());
                args.push("-n".to_owned());
                args.push("-P".to_owned());
                assert(args.deep_view() =~= seq!["-i"@, "-n"@, "-P"@]);
                ScanCommand { program: "lsof".to_owned(), args }
            },
            Platform::Windows => {
                args.push("-ano".to_owned());
                assert(args.deep_view() =~= seq!["-ano"@]);
                ScanCommand { program: "netstat".to_owned(), args }
            },
        }
    }

    /// The command that ends the process with the given pid: `kill` on Unix,
    /// `taskkill` by force on Windows.
    pub fn kill_command(&self, pid: u32) -> (command: ScanCommand)
        ensures
            command.program@ == (if self.on() is Unix { "kill"@ } else { "taskkill"@ }),
            command.args.deep_view() == (if self.on() is Unix {
                seq![decimal_of_nat(pid as nat)]
            } else {
                seq!["/PID"@, decimal_of_nat(pid as nat), "/F"@]
            }),
    {
        let mut number = String::new();
        push_decimal(&mut number, pid as u64);
        assert(number@ =~= decimal_of_nat(pid as nat));
        let mut args: Vec<String> = Vec::new();
        match self.platform {
            Platform::Unix => {
                args.push(number);
                assert(args.deep_view() =~= seq![decimal_of_nat(pid as nat)]);
                ScanCommand { program: "kill".to_owned(), args }
            },
            Platform::Windows => {
                args.push("/PID".to_owned());
                args.push(number);
                args.push("/F".to_owned());
                assert(args.deep_view() =~= seq!["/PID"@, decimal_of_nat(pid as nat), "/F"@]);
                ScanCommand { program: "taskkill".to_owned(), args }
            },
        }
    }
}

/// The platform whose paths are written with the given separator.
pub open spec fn platform_for(separator: char) -> Platform {
    if separator == '\\' {
        Platform::Windows
    } else {
        Platform::Unix
    }
}

impl Default for PortScanner {
    fn default() -> (scanner: Self)
        ensures
            scanner.on() is Unix || scanner.on() is Windows,
    {
        Self::new()
    }
}

} // verus!
