//! The remote command store: what is asked of it and how its answers are
//! read.
//!
//! The library sends nothing. [`ApiClient`] plans each call: the method, the
//! address, the query and the payload, and the message for a command that the
//! store does not have. The caller sends the call and hands back the status.
use crate::text::{decimal, decimal_string, pairs, push_decimal, string_of, text_of};
use vstd::prelude::*;
use vstd::string::StringExecFns;

verus! {

/// A point in time: seconds since the Unix epoch, and nanoseconds within the
/// second.
#[derive(Debug, Clone, Copy, PartialEq, Eq)]
pub struct Timestamp {
    pub seconds: i64,
    pub nanos: u32,
}

/// A command as the store returns it.
#[derive(Debug, Clone)]
pub struct Command {
    pub id: i32,
    pub command_string: String,
    pub name: String,
    pub namespace: String,
    pub user: Option<String>,
    pub cwd: Option<String>,
    pub hostname: Option<String>,
    pub scope: String,
    pub created_at: Timestamp,
    pub last_used_at: Option<Timestamp>,
    pub use_count: i32,
    pub is_new: bool,
}

/// A command to be saved.
#[derive(Debug)]
pub struct NewCommand {
    pub command_string: String,
    pub name: String,
    pub namespace: String,
    pub user: Option<String>,
    pub cwd: Option<String>,
    pub hostname: Option<String>,
    pub scope: String,
}

/// The new text of a command.
#[derive(Debug)]
pub struct CommandUpdate {
    pub command_string: String,
}

/// The new name and namespace of a command.
#[derive(Debug)]
pub struct CommandRename {
    pub name: String,
    pub namespace: String,
}

/// A recall by namespace and name, with the context it is made in.
#[derive(Debug)]
pub struct RecallRequest {
    pub name: String,
    pub namespace: String,
    pub user: String,
    pub hostname: String,
    pub cwd: String,
}

/// A recall by name alone, with the context it is made in.
#[derive(Debug)]
pub struct RecallByNameRequest {
    pub name: String,
    pub user: Option<String>,
    pub hostname: Option<String>,
    pub cwd: Option<String>,
    pub namespace_hint: Option<String>,
    pub scope_hint: Option<String>,
}

/// A command to be saved from shell history.
#[derive(Debug)]
pub struct QuickSaveRequest {
    pub command_string: String,
    pub name: String,
    pub namespace: Option<String>,
    pub user: Option<String>,
    pub cwd: Option<String>,
    pub hostname: Option<String>,
    pub scope: String,
}

/// A request for suggestions that fit the context.
#[derive(Debug)]
pub struct SuggestionsRequest {
    pub user: Option<String>,
    pub hostname: Option<String>,
    pub cwd: Option<String>,
    pub project_type: Option<String>,
    pub limit: i32,
}

/// A request to detect the project that a directory holds.
#[derive(Debug)]
pub struct ProjectContextRequest {
    pub directory_path: String,
    pub user: Option<String>,
}

/// What the store detected of a project.
#[derive(Debug)]
pub struct ProjectContextResponse {
    pub detected_namespace: Option<String>,
    pub project_type: Option<String>,
    pub confidence_score: i32,
    pub similar_commands: Vec<String>,
}

/// The record of one execution.
#[derive(Debug)]
pub struct ExecutionHistoryCreate {
    pub command_id: i32,
    pub user: Option<String>,
    pub hostname: Option<String>,
    pub cwd: Option<String>,
    pub arguments: Option<String>,
    pub execution_method: String,
    pub duration_ms: Option<i32>,
    pub exit_code: Option<i32>,
}

/// The method of a call.
#[derive(Debug, Clone, Copy, PartialEq, Eq, Structural)]
pub enum Method {
    Get,
    Post,
    Put,
    Patch,
    Delete,
}

/// What a call carries in its body.
#[derive(Debug)]
pub enum Payload {
    Empty,
    NewCommand(NewCommand),
    Recall(RecallRequest),
    Update(CommandUpdate),
    Rename(CommandRename),
    RecallByName(RecallByNameRequest),
    Suggestions(SuggestionsRequest),
    ProjectContext(ProjectContextRequest),
    Execution(ExecutionHistoryCreate),
}

/// A call to the store, ready to be sent.
#[derive(Debug)]
pub struct ApiCall {
    pub method: Method,
    /// The address, with the server's address in front.
    pub url: String,
    /// The query parameters, in order.
    pub query: Vec<(String, String)>,
    pub payload: Payload,
    /// The message for the answer that the store does not have what was asked
    /// for, where the call has such a message.
    pub not_found: Option<String>,
}

/// Why a call did not succeed.
#[derive(Debug)]
pub enum ApiError {
    /// The store does not have what was asked for; the message says so.
    NotFound(String),
    /// The store answered with this status, which reports an error.
    Status(u16),
}

/// The status with which the store says that it does not have what was asked
/// for.
pub const NOT_FOUND: u16 = 404;

/// `status` reports an error: it lies between 400 and 599.
pub open spec fn is_error_status(status: u16) -> bool {
    400 <= status < 600
}

impl ApiCall {
    /// The call has this method, address and query, and this message for
    /// what the store does not have.
    pub open spec fn sends(
        &self,
        method: Method,
        url: Seq<char>,
        query: Seq<(Seq<char>, Seq<char>)>,
        not_found: Option<Seq<char>>,
    ) -> bool {
        &&& self.method == method
        &&& self.url@ == url
        &&& pairs(self.query@) == query
        &&& string_of(self.not_found) == not_found
    }

    /// Reads the status of the answer to this call. The status 404 is the
    /// error `NotFound` where the call has a message for it. Any other status
    /// from 400 to 599, and 404 without such a message, is the error
    /// `Status`. Every other status is a success.
    pub fn outcome(&self, status: u16) -> (r: Result<(), ApiError>)
        ensures
            match r {
                Ok(_) => !is_error_status(status),
                Err(ApiError::NotFound(m)) => status == NOT_FOUND && self.not_found == Some(m),
                Err(ApiError::Status(s)) => s == status && is_error_status(status) && (status
                    == NOT_FOUND ==> self.not_found is None),
            },
    {
        if status == NOT_FOUND {
            match &self.not_found {
                Some(m) => {
                    return Err(ApiError::NotFound(m.clone()));
                },
                None => {},
            }
        }
        if 400 <= status && status < 600 {
            Err(ApiError::Status(status))
        } else {
            Ok(())
        }
    }
}

/// Plans the calls to the store at one server.
pub struct ApiClient {
    base_url: String,
}

impl ApiClient {
    /// The address of the server.
    pub closed spec fn base(&self) -> Seq<char> {
        self.base_url@
    }

    /// A client for the server at `base_url`.
    pub fn new(base_url: String) -> (r: Self)
        ensures
            r.base() == base_url@,
    {
        ApiClient { base_url }
    }

    /// The address of the server.
    pub fn base_url(&self) -> (r: &String)
        ensures
            r@ == self.base(),
    {
        &self.base_url
    }

    /// The address of `path` at the server.
    fn at(&self, path: &str) -> (r: String)
        ensures
            r@ == self.base() + path@,
    {
        let mut url = self.base_url.clone();
        url.append(path);
        url
    }

    /// The address of what `tail` names of the command `command_id`, below
    /// `path`.
    fn at_command(&self, path: &str, command_id: i32, tail: &str) -> (r: String)
        ensures
            r@ == self.base() + path@ + decimal(command_id as int) + tail@,
    {
        let mut url = self.base_url.clone();
        url.append(path);
        push_decimal(&mut url, command_id);
        url.append(tail);
        url
    }

    /// Saves a new command.
    pub fn save_command(&self, new_command: NewCommand) -> (call: ApiCall)
        ensures
            call.sends(Method::Post, self.base() + "/commands/"@, Seq::empty(), None),
            call.payload == Payload::NewCommand(new_command),
    {
        let call = ApiCall {
            method: Method::Post,
            url: self.at("/commands/"),
            query: Vec::new(),
            payload: Payload::NewCommand(new_command),
            not_found: None,
        };
        assert(pairs(call.query@) =~= Seq::empty());
        call
    }
    /// Searches for commands.
    pub fn get_commands(
        &self,
        query: &str,
        namespace: Option<&str>,
        user: Option<&str>,
        scope: Option<&str>,
    ) -> (call: ApiCall)
        ensures
            call.sends(
                Method::Get,
                self.base() + "/commands/"@,
                seq![("q"@, query@)] + param("namespace"@, text_of(namespace)) + param(
                    "user"@,
                    text_of(user),
                ) + param("scope"@, text_of(scope)),
                None,
            ),
            call.payload is Empty,
    {
        let mut params: Vec<(String, String)> = Vec::new();
        params.push(pair("q", query));
        push_param(&mut params, "namespace", namespace);
        push_param(&mut params, "user", user);
        push_param(&mut params, "scope", scope);
        let call = ApiCall {
            method: Method::Get,
            url: self.at("/commands/"),
            query: params,
            payload: Payload::Empty,
            not_found: None,
        };
        assert(pairs(call.query@) =~= seq![("q"@, query@)] + param("namespace"@, text_of(namespace))
            + param("user"@, text_of(user)) + param("scope"@, text_of(scope)));
        call
    }

    /// Recalls a command by namespace and name.
    pub fn recall_command(
        &self,
        namespace: &str,
        name: &str,
        user: &str,
        hostname: &str,
        cwd: &str,
    ) -> (call: ApiCall)
        ensures
            call.sends(
                Method::Post,
                self.base() + "/commands/recall"@,
                Seq::empty(),
                Some(
                    "Command '"@ + name@ + "' in namespace '"@ + namespace@
                        + "' not found for the current context."@,
                ),
            ),
            call.payload matches Payload::Recall(r) && r.name@ == name@ && r.namespace@
                == namespace@ && r.user@ == user@ && r.hostname@ == hostname@ && r.cwd@ == cwd@,
    {
        let mut message = String::from_str("Command '");
        message.append(name);
        message.append("' in namespace '");
        message.append(namespace);
        message.append("' not found for the current context.");
        let call = ApiCall {
            method: Method::Post,
            url: self.at("/commands/recall"),
            query: Vec::new(),
            payload: Payload::Recall(
                RecallRequest {
                    name: name.to_owned(),
                    namespace: namespace.to_owned(),
                    user: user.to_owned(),
                    hostname: hostname.to_owned(),
                    cwd: cwd.to_owned(),
                },
            ),
            not_found: Some(message),
        };
        assert(pairs(call.query@) =~= Seq::empty());
        call
    }

    /// Lists all namespaces.
    pub fn get_namespaces(&self) -> (call: ApiCall)
        ensures
            call.sends(Method::Get, self.base() + "/namespaces/"@, Seq::empty(), None),
            call.payload is Empty,
    {
        let call = ApiCall {
            method: Method::Get,
            url: self.at("/namespaces/"),
            query: Vec::new(),
            payload: Payload::Empty,
            not_found: None,
        };
        assert(pairs(call.query@) =~= Seq::empty());
        call
    }

    /// Deletes a command.
    pub fn delete_command(&self, command_id: i32, user: &str) -> (call: ApiCall)
        ensures
            call.sends(
                Method::Delete,
                self.base() + "/commands/"@ + decimal(command_id as int),
                seq![("user"@, user@)],
                Some("Command not found, or you don't have permission to delete it."@),
            ),
            call.payload is Empty,
    {
        let call = ApiCall {
            method: Method::Delete,
            url: self.at_command("/commands/", command_id, ""),
            query: for_user(user),
            payload: Payload::Empty,
            not_found: Some(
                "Command not found, or you don't have permission to delete it.".to_owned(),
            ),
        };
        proof {
            reveal_strlit("");
        }
        call
    }

    /// Gives a command a new text.
    pub fn update_command(
        &self,
        command_id: i32,
        user: &str,
        command_update: CommandUpdate,
    ) -> (call: ApiCall)
        ensures
            call.sends(
                Method::Put,
                self.base() + "/commands/"@ + decimal(command_id as int),
                seq![("user"@, user@)],
                Some("Command not found, or you don't have permission to edit it."@),
            ),
            call.payload == Payload::Update(command_update),
    {
        let call = ApiCall {
            method: Method::Put,
            url: self.at_command("/commands/", command_id, ""),
            query: for_user(user),
            payload: Payload::Update(command_update),
            not_found: Some(
                "Command not found, or you don't have permission to edit it.".to_owned(),
            ),
        };
        proof {
            reveal_strlit("");
        }
        call
    }

    /// Lists all commands of a user.
    pub fn get_all_user_commands(&self, user: &str) -> (call: ApiCall)
        ensures
            call.sends(
                Method::Get,
                self.base() + "/commands/all"@,
                seq![("user"@, user@)],
                None,
            ),
            call.payload is Empty,
    {
        ApiCall {
            method: Method::Get,
            url: self.at("/commands/all"),
            query: for_user(user),
            payload: Payload::Empty,
            not_found: None,
        }
    }

    /// Gives a command a new name and namespace.
    pub fn rename_command(
        &self,
        command_id: i32,
        user: &str,
        command_rename: CommandRename,
    ) -> (call: ApiCall)
        ensures
            call.sends(
                Method::Patch,
                self.base() + "/commands/"@ + decimal(command_id as int),
                seq![("user"@, user@)],
                Some("Command not found, or you don't have permission to rename it."@),
            ),
            call.payload == Payload::Rename(command_rename),
    {
        let call = ApiCall {
            method: Method::Patch,
            url: self.at_command("/commands/", command_id, ""),
            query: for_user(user),
            payload: Payload::Rename(command_rename),
            not_found: Some(
                "Command not found, or you don't have permission to rename it.".to_owned(),
            ),
        };
        proof {
            reveal_strlit("");
        }
        call
    }

    /// Fetches one command by its identifier.
    pub fn get_command_by_id(&self, command_id: i32, user: &str) -> (call: ApiCall)
        ensures
            call.sends(
                Method::Get,
                self.base() + "/commands/by-id/"@ + decimal(command_id as int),
                seq![("user"@, user@)],
                Some(
                    "Command with ID "@ + decimal(command_id as int)
                        + " not found or you don't have permission to access it."@,
                ),
            ),
            call.payload is Empty,
    {
        let mut message = String::from_str("Command with ID ");
        push_decimal(&mut message, command_id);
        message.append(" not found or you don't have permission to access it.");
        let call = ApiCall {
            method: Method::Get,
            url: self.at_command("/commands/by-id/", command_id, ""),
            query: for_user(user),
            payload: Payload::Empty,
            not_found: Some(message),
        };
        proof {
            reveal_strlit("");
        }
        call
    }

    /// Fetches a command for execution, which the store counts as a use.
    pub fn execute_command(&self, command_id: i32, user: &str) -> (call: ApiCall)
        ensures
            call.sends(
                Method::Post,
                self.base() + "/commands/"@ + decimal(command_id as int) + "/execute"@,
                seq![("user"@, user@)],
                Some(
                    "Command with ID "@ + decimal(command_id as int)
                        + " not found or you don't have permission to execute it."@,
                ),
            ),
            call.payload is Empty,
    {
        let mut message = String::from_str("Command with ID ");
        push_decimal(&mut message, command_id);
        message.append(" not found or you don't have permission to execute it.");
        ApiCall {
            method: Method::Post,
            url: self.at_command("/commands/", command_id, "/execute"),
            query: for_user(user),
            payload: Payload::Empty,
            not_found: Some(message),
        }
    }

    /// Recalls a command by name, matched against the context.
    pub fn recall_command_by_name(&self, request: RecallByNameRequest) -> (call: ApiCall)
        ensures
            call.sends(
                Method::Post,
                self.base() + "/commands/recall-by-name"@,
                Seq::empty(),
                Some("No command named '"@ + request.name@ + "' found in the current context."@),
            ),
            call.payload == Payload::RecallByName(request),
    {
        let mut message = String::from_str("No command named '");
        message.append(request.name.as_str());
        message.append("' found in the current context.");
        let call = ApiCall {
            method: Method::Post,
            url: self.at("/commands/recall-by-name"),
            query: Vec::new(),
            payload: Payload::RecallByName(request),
            not_found: Some(message),
        };
        assert(pairs(call.query@) =~= Seq::empty());
        call
    }

    /// Asks for suggestions that fit the context.
    pub fn get_suggestions(&self, request: SuggestionsRequest) -> (call: ApiCall)
        ensures
            call.sends(Method::Post, self.base() + "/suggestions"@, Seq::empty(), None),
            call.payload == Payload::Suggestions(request),
    {
        let call = ApiCall {
            method: Method::Post,
            url: self.at("/suggestions"),
            query: Vec::new(),
            payload: Payload::Suggestions(request),
            not_found: None,
        };
        assert(pairs(call.query@) =~= Seq::empty());
        call
    }

    /// Asks which project a directory holds.
    pub fn detect_project_context(&self, request: ProjectContextRequest) -> (call: ApiCall)
        ensures
            call.sends(Method::Post, self.base() + "/project-context"@, Seq::empty(), None),
            call.payload == Payload::ProjectContext(request),
    {
        let call = ApiCall {
            method: Method::Post,
            url: self.at("/project-context"),
            query: Vec::new(),
            payload: Payload::ProjectContext(request),
            not_found: None,
        };
        assert(pairs(call.query@) =~= Seq::empty());
        call
    }

    /// Asks for the commands that are similar to a command, at most `limit`
    /// of them where a limit is given.
    pub fn get_similar_commands(&self, command_id: i32, limit: Option<i32>) -> (call: ApiCall)
        ensures
            call.sends(
                Method::Get,
                self.base() + "/commands/"@ + decimal(command_id as int) + "/similar"@
                    + limit_suffix(limit),
                Seq::empty(),
                None,
            ),
            call.payload is Empty,
    {
        let mut url = self.at_command("/commands/", command_id, "/similar");
        if let Some(n) = limit {
            url.append("?limit=");
            push_decimal(&mut url, n);
            assert(url@ =~= self.base() + "/commands/"@ + decimal(command_id as int)
                + "/similar"@ + limit_suffix(limit));
        }
        let call = ApiCall {
            method: Method::Get,
            url,
            query: Vec::new(),
            payload: Payload::Empty,
            not_found: None,
        };
        assert(pairs(call.query@) =~= Seq::empty());
        call
    }

    /// Hands in the record of an execution.
    pub fn create_execution_record(&self, execution: ExecutionHistoryCreate) -> (call: ApiCall)
        ensures
            call.sends(Method::Post, self.base() + "/execution-history"@, Seq::empty(), None),
            call.payload == Payload::Execution(execution),
    {
        let call = ApiCall {
            method: Method::Post,
            url: self.at("/execution-history"),
            query: Vec::new(),
            payload: Payload::Execution(execution),
            not_found: None,
        };
        assert(pairs(call.query@) =~= Seq::empty());
        call
    }

    /// Asks for the figures on executions, of one user and of a number of
    /// days where they are given.
    pub fn get_execution_analytics(&self, user: Option<&str>, days: Option<i32>) -> (call: ApiCall)
        ensures
            call.sends(
                Method::Get,
                self.base() + "/analytics/execution"@,
                param("user"@, text_of(user)) + param(
                    "days"@,
                    match days {
                        Some(d) => Some(decimal(d as int)),
                        None => None,
                    },
                ),
                None,
            ),
            call.payload is Empty,
    {
        let mut params: Vec<(String, String)> = Vec::new();
        push_param(&mut params, "user", user);
        match days {
            Some(d) => {
                let text = decimal_string(d);
                push_param(&mut params, "days", Some(text.as_str()));
            },
            None => {
                push_param(&mut params, "days", None);
            },
        }
        let call = ApiCall {
            method: Method::Get,
            url: self.at("/analytics/execution"),
            query: params,
            payload: Payload::Empty,
            not_found: None,
        };
        call
    }
}

/// What the address of similar commands ends with: the limit, where one is
/// given.
pub open spec fn limit_suffix(limit: Option<i32>) -> Seq<char> {
    match limit {
        Some(n) => "?limit="@ + decimal(n as int),
        None => Seq::empty(),
    }
}

/// The query parameter `key` with `value`, or none where there is no value.
pub open spec fn param(key: Seq<char>, value: Option<Seq<char>>) -> Seq<(Seq<char>, Seq<char>)> {
    match value {
        Some(v) => seq![(key, v)],
        None => Seq::empty(),
    }
}

/// The pair of `key` and `value` as strings.
fn pair(key: &str, value: &str) -> (r: (String, String))
    ensures
        r.0@ == key@,
        r.1@ == value@,
{
    (key.to_owned(), value.to_owned())
}

/// Appends the parameter `key` to `params` where it has a value.
fn push_param(params: &mut Vec<(String, String)>, key: &str, value: Option<&str>)
    ensures
        pairs(final(params)@) == pairs(old(params)@) + param(key@, text_of(value)),
{
    if let Some(v) = value {
        params.push(pair(key, v));
    }
}

/// The query that names the user.
fn for_user(user: &str) -> (r: Vec<(String, String)>)
    ensures
        pairs(r@) == seq![("user"@, user@)],
{
    let mut r: Vec<(String, String)> = Vec::new();
    r.push(pair("user", user));
    r
}

} // verus!
