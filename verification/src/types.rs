//! Request and response records exchanged with the DeepCanvas API.

use vstd::prelude::*;

verus! {

/// Body of the device-authorization start request.
#[derive(Debug, Clone)]
pub struct AuthStartRequest {
    pub client_info: ClientInfo,
}

/// Description of the device that asks for authorization.
#[derive(Debug, Clone)]
pub struct ClientInfo {
    pub hostname: String,
    pub os: String,
    pub os_version: String,
    pub cli_version: String,
}

/// Answer to the device-authorization start request.
#[derive(Debug, Clone)]
pub struct AuthStartResponse {
    pub device_token: String,
    pub user_code: String,
    pub user_code_display: String,
    pub verify_url: String,
    pub expires_in: u64,
    pub poll_interval: u64,
}

/// State of a pending device authorization.
#[derive(Debug, Clone)]
pub enum PollResponse {
    Pending,
    Denied,
    Expired,
    Approved { access_token: String },
}

/// The tasks assigned in a project.
#[derive(Debug, Clone)]
pub struct TasksResponse {
    pub project: ProjectRef,
    pub tasks: Vec<TaskSummary>,
    pub count: u32,
}

/// A project, as the task list names it.
#[derive(Debug, Clone)]
pub struct ProjectRef {
    pub id: String,
    pub slug: String,
    pub name: String,
    pub organization_slug: String,
}

/// One row of the task list.
#[derive(Debug, Clone)]
pub struct TaskSummary {
    pub id: String,
    pub code: String,
    pub title: String,
    pub status: String,
    pub energy: Option<String>,
    pub priority: Option<String>,
    pub assignee: Option<UserRef>,
    pub primary_document: Option<DocumentRef>,
    pub updated_at: String,
    pub parent_id: Option<String>,
    pub parent_code: Option<String>,
}

/// A user, as tasks name them.
#[derive(Debug, Clone)]
pub struct UserRef {
    pub id: String,
    pub email: String,
    pub name: Option<String>,
}

/// A document, as task lists name them.
#[derive(Debug, Clone)]
pub struct DocumentRef {
    pub id: String,
    pub code: String,
    pub title: String,
}

/// Everything needed to work on one task.
#[derive(Debug, Clone)]
pub struct TaskContextResponse {
    pub task: TaskDetail,
    pub documents: TaskDocuments,
}

/// A task with its description and acceptance criteria.
#[derive(Debug, Clone)]
pub struct TaskDetail {
    pub id: String,
    pub code: String,
    pub title: String,
    pub description: Option<String>,
    pub status: String,
    pub energy: Option<String>,
    pub priority: Option<String>,
    pub acceptance_criteria: Vec<AcceptanceCriterion>,
    pub assignee: Option<UserRef>,
    pub reporter: Option<UserRef>,
    pub created_at: String,
    pub updated_at: String,
    pub parent_id: Option<String>,
    pub parent_code: Option<String>,
}

/// One acceptance criterion of a task.
#[derive(Debug, Clone)]
pub struct AcceptanceCriterion {
    pub id: String,
    pub text: String,
    pub is_done: bool,
}

/// The documents linked to a task.
#[derive(Debug, Clone)]
pub struct TaskDocuments {
    pub primary: Option<DocumentFull>,
    pub related: Vec<DocumentFull>,
}

/// A document with its full markdown content.
#[derive(Debug, Clone)]
pub struct DocumentFull {
    pub id: String,
    pub code: String,
    pub doc_type: String,
    pub title: String,
    pub content_markdown: String,
    pub version: i32,
    pub updated_at: String,
}

/// The projects the user can link a directory to.
#[derive(Debug, Clone)]
pub struct ProjectListResponse {
    pub projects: Vec<ProjectListEntry>,
    pub count: u32,
}

/// One project the user belongs to, with the user's role there.
#[derive(Debug, Clone)]
pub struct ProjectListEntry {
    pub organization_slug: String,
    pub organization_name: String,
    pub project_slug: String,
    pub project_name: String,
    pub role: String,
}

/// Body of the task completion request.
#[derive(Debug, Clone)]
pub struct CompleteRequest {
    pub agent_session: Option<AgentSessionDto>,
}

/// Usage details of an agent session, sent along with the session.
#[derive(Debug, Clone)]
pub struct SessionMetadata {
    pub input_tokens: u64,
    pub output_tokens: u64,
    pub cache_read_tokens: u64,
    pub cache_write_tokens: u64,
    pub message_count: u32,
    pub model_ids: Vec<String>,
    pub started_at_ms: i64,
    pub ended_at_ms: i64,
}

/// The agent session reported when a task is completed.
#[derive(Debug, Clone)]
pub struct AgentSessionDto {
    pub agent_code: String,
    pub local_repo: Option<String>,
    pub duration_seconds: u64,
    pub tokens_used: u64,
    pub metadata: SessionMetadata,
}

/// Answer to the task completion request.
#[derive(Debug, Clone)]
pub struct TaskCompleteResponse {
    pub task: TaskCompleted,
    pub usage_recorded: bool,
}

/// A task as it stands after completion.
#[derive(Debug, Clone)]
pub struct TaskCompleted {
    pub id: String,
    pub code: String,
    pub title: String,
    pub status: String,
    pub completed_at: Option<String>,
    pub updated_at: String,
}

} // verus!
