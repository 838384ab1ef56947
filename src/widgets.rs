use vstd::prelude::*;

verus! {

/// Where the Docker daemon listens by default.
pub const DEFAULT_SOCKET: &'static str = "unix:///var/run/docker.sock";

/// Terminal colours that a banner or a command's output may be shown in.
#[derive(PartialEq, Eq, Structural, Clone, Copy, Debug)]
pub enum TextColor {
    Black,
    Red,
    Green,
    Yellow,
    Blue,
    Magenta,
    Cyan,
    White,
    LightBlack,
    LightRed,
    LightGreen,
    LightYellow,
    LightBlue,
    LightMagenta,
    LightCyan,
    LightWhite,
}

/// The output of a shell command, shown in a colour.
pub struct Banner {
    pub color: TextColor,
    pub command: String,
}

/// The output of a shell command, shown in a colour (white by default).
pub struct Command {
    pub color: TextColor,
    pub command: String,
}

/// Failures of running an outside program.
pub enum BetterCommandError {
    NotFound { executable: String },
    ExitStatusError { executable: String, exit_code: i32, error: String },
    IOError { message: String },
}

pub enum BannerError {
    BetterCommandError(BetterCommandError),
    IOError { message: String },
}

pub enum CommandError {
    BetterCommandError(BetterCommandError),
    IOError { message: String },
}

/// A container to report on, by its name in Docker and the name shown.
pub struct DockerContainer {
    pub docker_name: String,
    pub display_name: String,
}

/// The state of chosen Docker containers.
pub struct Docker {
    pub containers: Vec<DockerContainer>,
    pub title: String,
    pub socket: String,
}

impl Docker {
    /// Reports on `containers` under the title `Docker`, through the default
    /// socket.
    pub fn new(containers: Vec<DockerContainer>) -> (r: Docker)
        ensures
            r.containers@ == containers@,
            r.title@ == "Docker"@,
            r.socket@ == DEFAULT_SOCKET@,
    {
        Docker {
            title: String::from_str("Docker"),
            socket: String::from_str(DEFAULT_SOCKET),
            containers,
        }
    }
}

/// How the containers of a compose stack are reported.
#[derive(PartialEq, Eq, Structural, Clone, Copy, Debug)]
pub enum DockerComposeStyle {
    /// How many containers are in each state.
    Count,
    /// Each container with its state.
    Full,
}

impl Default for DockerComposeStyle {
    fn default() -> (r: DockerComposeStyle)
        ensures
            r == DockerComposeStyle::Count,
    {
        DockerComposeStyle::Count
    }
}

/// A compose project, by the path of its directory and the name shown.
pub struct ComposeStack {
    pub path: String,
    pub display_name: String,
}

/// The state of the containers of Docker compose stacks.
pub struct DockerCompose {
    pub stacks: Vec<ComposeStack>,
    pub title: String,
    pub socket: String,
    pub style: DockerComposeStyle,
}

impl DockerCompose {
    /// Reports on `stacks` under the title `Docker Compose`, through the
    /// default socket, counting containers by state.
    pub fn new(stacks: Vec<ComposeStack>) -> (r: DockerCompose)
        ensures
            r.stacks@ == stacks@,
            r.title@ == "Docker Compose"@,
            r.socket@ == DEFAULT_SOCKET@,
            r.style == DockerComposeStyle::Count,
    {
        DockerCompose {
            title: String::from_str("Docker Compose"),
            socket: String::from_str(DEFAULT_SOCKET),
            style: DockerComposeStyle::Count,
            stacks,
        }
    }
}

/// Ban counts of fail2ban jails.
pub struct Fail2Ban {
    pub jails: Vec<String>,
}

pub enum Fail2BanError {
    BetterCommand(BetterCommandError),
    ParseInt { message: String },
    IO { message: String },
}

pub enum FilesystemsError {
    FsNotFound { mount_point: String },
    IO { message: String },
}

/// The time of this run of the report.
pub struct LastRun {}

/// Where swap usage is shown next to memory usage.
#[derive(PartialEq, Eq, Structural, Clone, Copy, Debug)]
pub enum SwapPosition {
    Beside,
    Below,
    /// Swap usage is not shown.
    Off,
}

impl Default for SwapPosition {
    fn default() -> (r: SwapPosition)
        ensures
            r == SwapPosition::Beside,
    {
        SwapPosition::Beside
    }
}

/// Memory and swap usage.
pub struct Memory {
    pub swap_pos: SwapPosition,
}

pub enum MemoryError {
    MemoryNotFound { quantity: String },
    UnsupportedPlatform,
    IO { message: String },
}

/// A systemd unit to report on, by its id and the name shown.
pub struct Service {
    pub display_name: String,
    pub id: String,
}

/// The state of system units.
pub struct ServiceStatus {
    pub services: Vec<Service>,
}

/// The state of units of the user's own service manager.
pub struct UserServiceStatus {
    pub services: Vec<Service>,
}

pub enum ServiceStatusError {
    ConfigEmpty,
    BetterCommand(BetterCommandError),
    IO { message: String },
}

/// Order of the certificates listed.
#[derive(PartialEq, Eq, Structural, Clone, Copy, Debug)]
pub enum SortMethod {
    Alphabetical,
    Expiration,
    Manual,
}

impl Default for SortMethod {
    fn default() -> (r: SortMethod)
        ensures
            r == SortMethod::Manual,
    {
        SortMethod::Manual
    }
}

/// A certificate to check, by the name shown and the path of its file.
pub struct Cert {
    pub name: String,
    pub path: String,
}

/// Expiry of TLS certificates.
pub struct SSLCerts {
    pub sort_method: SortMethod,
    pub certs: Vec<Cert>,
}

/// How long the machine has been up, after a prefix.
pub struct Uptime {
    pub prefix: String,
}

/// How much of the weather report is shown.
#[derive(PartialEq, Eq, Structural, Clone, Copy, Debug)]
pub enum WeatherStyle {
    Oneline,
    Day,
    Full,
}

/// A weather report fetched over HTTP.
pub struct Weather {
    pub url: Option<String>,
    pub user_agent: Option<String>,
    pub proxy: Option<String>,
    pub loc: String,
    pub style: Option<WeatherStyle>,
    pub timeout: u64,
}

/// Seconds to wait for the weather service.
pub fn default_timeout() -> (r: u64)
    ensures
        r == 5,
{
    5
}

} // verus!
