//! Plain data exchanged with the embedding launcher's internal interface.
//!
//! The HTTP client that carries these values lives with the I/O; the values
//! themselves, and the fixed address of the internal interface, are here.

use vstd::prelude::*;

verus! {

/// The loopback port of the internal interface.
pub const FUJI_INTERNAL_API_PORT: u16 = 47_991;

/// The base address of the internal interface.
pub fn fuji_internal_url() -> (r: String)
    ensures
        r@ == "http://127.0.0.1:47991/internal"@,
{
    "http://127.0.0.1:47991/internal".to_owned()
}

/// A one-time pairing code and its expiry.
pub struct FujiOtpResponse {
    pub pin: String,
    pub expires_at: u64,
}

/// Game metadata from the launcher's library.
pub struct FujiGame {
    pub id: String,
    pub title: String,
    pub platform: String,
    pub platform_id: Option<String>,
    pub executable_path: Option<String>,
    pub install_path: Option<String>,
    pub launch_command: Option<String>,
    pub last_played: Option<String>,
    pub metadata: Option<FujiGameMetadata>,
}

/// Descriptive metadata of a game.
pub struct FujiGameMetadata {
    pub summary: Option<String>,
    pub genres: Option<Vec<String>>,
    pub release_date: Option<String>,
    pub developer: Option<String>,
    pub publisher: Option<String>,
}

/// Artwork available for a game.
pub struct FujiGameArtwork {
    pub has_cover: bool,
    pub cover_url: Option<String>,
    pub has_screenshots: bool,
    pub screenshot_urls: Option<Vec<String>>,
}

/// The game-list answer.
pub struct FujiGamesResponse {
    pub games: Vec<FujiGame>,
    pub count: usize,
    pub last_scan_time: Option<String>,
}

/// An application as the streaming host lists it.
pub struct SunshineApp {
    pub id: u32,
    pub title: String,
    pub is_hdr_supported: bool,
    /// The launcher's own game identifier, when the app was synced from it.
    pub fuji_game_id: Option<String>,
}

/// The application-list answer.
pub struct SunshineAppsResponse {
    pub apps: Vec<SunshineApp>,
}

/// A game launch request.
pub struct LaunchRequest {
    pub stream_mode: bool,
}

/// The answer to a launch request.
pub struct LaunchResponse {
    pub success: bool,
    pub session_id: Option<String>,
    pub game: Option<LaunchGameInfo>,
    pub process: Option<LaunchProcessInfo>,
    pub error: Option<String>,
    pub message: Option<String>,
}

/// The identity of a launched game.
pub struct LaunchGameInfo {
    pub id: String,
    pub title: String,
}

/// The process of a launched game.
pub struct LaunchProcessInfo {
    pub pid: Option<u32>,
    pub start_time: Option<String>,
}

/// A request to stop the running game.
pub struct StopRequest {
    pub force: bool,
}

/// The answer to a stop request.
pub struct StopResponse {
    pub success: bool,
    pub message: Option<String>,
    pub error: Option<String>,
}

/// A stream-orchestration launch request by game identifier.
pub struct StreamLaunchRequest {
    pub game_id: String,
}

/// A stream-orchestration launch request carrying both identifiers.
pub struct StreamLaunchWithIdsRequest {
    /// The launcher's game identifier, when known.
    pub fuji_game_id: Option<String>,
    /// The streaming host's own application identifier.
    pub sunshine_app_id: u32,
    /// The title, for matching and logging.
    pub title: String,
}

/// The answer to a stream-orchestration launch.
pub struct StreamLaunchResponse {
    pub success: bool,
    /// Whether the game was launched anew or resumed.
    pub action: Option<String>,
    /// Whether a previous game was cancelled first.
    pub cancelled_previous: Option<bool>,
    /// The application index for the follow-up launch call.
    pub app_index: Option<u32>,
    pub game: Option<StreamLaunchGameInfo>,
    pub error: Option<String>,
    pub message: Option<String>,
}

/// The identity of the game a stream launch names.
pub struct StreamLaunchGameInfo {
    pub id: String,
    pub title: String,
    pub sunshine_app_id: Option<u32>,
}

/// A notification that streaming of a game began.
pub struct StreamStartedRequest {
    pub game_id: String,
}

/// The current-session answer.
pub struct SessionResponse {
    pub active: bool,
    pub session_id: Option<String>,
    pub game: Option<FujiSessionGame>,
    pub start_time: Option<String>,
    pub duration: Option<u64>,
}

/// The identity of the game a session runs.
pub struct FujiSessionGame {
    pub id: String,
    pub title: String,
}

/// The launcher's overall status.
pub struct FujiStatus {
    pub version: String,
    pub sunshine: SunshineStatus,
    pub web_server: WebServerStatus,
    pub network: NetworkStatus,
    pub streaming: StreamingStatus,
}

/// The streaming host's status.
pub struct SunshineStatus {
    pub running: bool,
    pub version: Option<String>,
    pub port: u16,
    pub http_port: Option<u16>,
    pub https_port: Option<u16>,
}

/// The web tier's status.
pub struct WebServerStatus {
    pub running: bool,
    pub port: Option<u16>,
}

/// The network's status as the launcher sees it.
pub struct NetworkStatus {
    pub local_ip: Option<String>,
    pub external_ip: Option<String>,
    pub upnp_available: bool,
}

/// The streaming status.
pub struct StreamingStatus {
    pub active: bool,
    pub current_game: Option<FujiSessionGame>,
}

} // verus!
