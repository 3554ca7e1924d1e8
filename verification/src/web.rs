//! The shapes the HTTP surface exchanges with the core, and the exact
//! command lines the service-management endpoints dispatch. The HTTP
//! plumbing itself lives outside the library.
use vstd::prelude::*;

verus! {

use crate::model::AppInfo;
use crate::model::Timestamp;
use crate::smap::SMap;
use crate::strutil::str_eq;

/// A broadcast request: one message for every connected agent.
#[derive(Debug)]
pub struct BroadcastMessage {
    pub message: String,
}

/// A dispatch request: one command for one agent.
#[derive(Debug)]
pub struct CommandRequest {
    pub client_id: String,
    pub command: String,
}

/// What a dispatch returns: the minted id and a human-readable note.
#[derive(Debug)]
pub struct CommandExecuteResponse {
    pub command_id: String,
    pub message: String,
}

/// Look up one command's status.
#[derive(Debug)]
pub struct CommandStatusQuery {
    pub command_id: String,
}

/// Look up one client's recent results.
#[derive(Debug)]
pub struct ClientHistoryQuery {
    pub client_id: String,
    pub limit: Option<usize>,
}

/// The health endpoint's answer.
#[derive(Debug)]
pub struct HealthResponse {
    pub status: String,
    pub timestamp: Timestamp,
    pub clients_count: usize,
    pub uptime_seconds: u64,
}

/// Manage one application's service on one agent.
#[derive(Debug)]
pub struct ServiceManagementRequest {
    pub client_id: String,
    pub app_name: String,
    pub action: ServiceAction,
}

#[derive(Debug, PartialEq, Eq, Structural, Clone, Copy)]
pub enum ServiceAction {
    Start,
    Stop,
    Restart,
    Status,
}

/// Update one application on one agent to a version.
#[derive(Debug)]
pub struct UpdateRequest {
    pub client_id: String,
    pub app_name: String,
    pub version: String,
}

/// The application inventory across the fleet, keyed by client id.
#[derive(Debug)]
pub struct AppInfoResponse {
    pub client_apps: SMap<ClientAppInfo>,
}

/// One agent's application inventory.
#[derive(Debug)]
pub struct ClientAppInfo {
    pub client_id: String,
    pub hostname: String,
    pub apps: Vec<AppInfo>,
}

/// Look up one client by id.
#[derive(Debug)]
pub struct ClientIdQuery {
    pub client_id: String,
}

/// One operator session, tracked by the UI login.
#[derive(Debug)]
pub struct SessionData {
    pub user_id: String,
    pub created_at: Timestamp,
    pub last_accessed: Timestamp,
}

/// A login attempt.
#[derive(Debug)]
pub struct LoginRequest {
    pub username: String,
    pub password: String,
}

/// The login verdict.
#[derive(Debug)]
pub struct LoginResponse {
    pub success: bool,
    pub message: String,
    pub session_id: Option<String>,
}

/// The operator credential the UI login checks against.
#[derive(Debug)]
pub struct UserAuth {
    pub username: String,
    pub password: String,
}

impl Default for UserAuth {
    fn default() -> (r: UserAuth)
        ensures
            r.username@ == "admin"@,
            r.password@ == "admin123"@,
    {
        UserAuth {
            username: String::from_str("admin"),
            password: String::from_str("admin123"),
        }
    }
}

impl UserAuth {
    /// A login passes exactly when both fields agree character for
    /// character.
    pub fn check_credentials(&self, username: &str, password: &str) -> (r: bool)
        ensures
            r == (self.username@ == username@ && self.password@ == password@),
    {
        str_eq(self.username.as_str(), username) && str_eq(self.password.as_str(), password)
    }
}

/// The shell line the service-management endpoint dispatches for one action
/// on one application.
pub open spec fn spec_service_command(app_name: Seq<char>, action: ServiceAction) -> Seq<char> {
    match action {
        ServiceAction::Start => "cd /tmp/apps/"@ + app_name + " && bash "@ + app_name
            + ".sh start"@,
        ServiceAction::Stop => "cd /tmp/apps/"@ + app_name + " && if [ -f "@ + app_name
            + ".pid ]; then kill $(cat "@ + app_name + ".pid) && rm -f "@ + app_name
            + ".pid; else echo 'Service is not running'; fi"@,
        ServiceAction::Restart => "cd /tmp/apps/"@ + app_name + " && (if [ -f "@ + app_name
            + ".pid ]; then kill $(cat "@ + app_name + ".pid) && rm -f "@ + app_name
            + ".pid; fi) && sleep 1 && bash "@ + app_name + ".sh start"@,
        ServiceAction::Status => "cd /tmp/apps/"@ + app_name + " && if [ -f "@ + app_name
            + ".pid ]; then pid=$(cat "@ + app_name
            + ".pid); if ps -p $pid > /dev/null 2>&1; then echo 'Service is running (PID: '$pid')'; else echo 'PID file exists but process is not running'; fi; else echo 'Service is not running'; fi"@,
    }
}

/// Builds the exact line for one service action.
pub fn service_command(app_name: &str, action: ServiceAction) -> (r: String)
    ensures
        r@ == spec_service_command(app_name@, action),
{
    match action {
        ServiceAction::Start => {
            let mut s = String::from_str("cd /tmp/apps/");
            s.append(app_name);
            s.append(" && bash ");
            s.append(app_name);
            s.append(".sh start");
            s
        },
        ServiceAction::Stop => {
            let mut s = String::from_str("cd /tmp/apps/");
            s.append(app_name);
            s.append(" && if [ -f ");
            s.append(app_name);
            s.append(".pid ]; then kill $(cat ");
            s.append(app_name);
            s.append(".pid) && rm -f ");
            s.append(app_name);
            s.append(".pid; else echo 'Service is not running'; fi");
            s
        },
        ServiceAction::Restart => {
            let mut s = String::from_str("cd /tmp/apps/");
            s.append(app_name);
            s.append(" && (if [ -f ");
            s.append(app_name);
            s.append(".pid ]; then kill $(cat ");
            s.append(app_name);
            s.append(".pid) && rm -f ");
            s.append(app_name);
            s.append(".pid; fi) && sleep 1 && bash ");
            s.append(app_name);
            s.append(".sh start");
            s
        },
        ServiceAction::Status => {
            let mut s = String::from_str("cd /tmp/apps/");
            s.append(app_name);
            s.append(" && if [ -f ");
            s.append(app_name);
            s.append(".pid ]; then pid=$(cat ");
            s.append(app_name);
            s.append(
                ".pid); if ps -p $pid > /dev/null 2>&1; then echo 'Service is running (PID: '$pid')'; else echo 'PID file exists but process is not running'; fi; else echo 'Service is not running'; fi",
            );
            s
        },
    }
}

/// The shell line the update endpoint dispatches.
pub open spec fn spec_update_command(app_name: Seq<char>, version: Seq<char>) -> Seq<char> {
    "cd /tmp/apps/"@ + app_name + " && bash "@ + app_name + ".sh update "@ + version
}

/// Builds the exact line for one application update.
pub fn update_command(app_name: &str, version: &str) -> (r: String)
    ensures
        r@ == spec_update_command(app_name@, version@),
{
    let mut s = String::from_str("cd /tmp/apps/");
    s.append(app_name);
    s.append(" && bash ");
    s.append(app_name);
    s.append(".sh update ");
    s.append(version);
    s
}

} // verus!
