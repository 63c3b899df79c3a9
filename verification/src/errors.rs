//! Errors, and the messages that are shown for them.
use crate::text::{decimal, decimal_text, join, join3};
use vstd::prelude::*;

verus! {

/// What `Debug` writes for a `std::time::Duration` of so many milliseconds.
pub uninterp spec fn duration_text(millis: u64) -> Seq<char>;

/// The `Debug` form of `std::time::Duration::from_millis(millis)`.
#[verifier::external_body]
fn format_duration(millis: u64) -> (r: String)
    ensures
        r@ == duration_text(millis),
{
    format!("{:?}", std::time::Duration::from_millis(millis))
}

// ---------------------------------------------------------------------------
// What the errors hold
// ---------------------------------------------------------------------------
pub ghost enum ApiErrorV {
    Http { status: u16, body: Seq<char> },
    Network(Seq<char>),
    BadStream(Seq<char>),
    RateLimit,
    IdleTimeout(u64),
    Cancelled,
    BadJson(Seq<char>),
}

pub ghost enum ToolErrorV {
    BadArgs(Seq<char>),
    Failed(Seq<char>),
    Timeout(u64),
}

pub ghost enum SessionErrorV {
    NotFound(Seq<char>),
    BadJson(Seq<char>),
    Replay(Seq<char>),
    Io(Seq<char>),
}

pub ghost enum AppErrorV {
    Api(ApiErrorV),
    Tool(ToolErrorV),
    Session(SessionErrorV),
    Config(Seq<char>),
    Io(Seq<char>),
}

impl ApiErrorV {
    /// The message of the error.
    pub open spec fn message(self) -> Seq<char> {
        match self {
            ApiErrorV::Http { status, body } => "HTTP "@ + decimal(status as nat) + ": "@ + body,
            ApiErrorV::Network(e) => "网络错误: "@ + e,
            ApiErrorV::BadStream(e) => "SSE 流解析失败: "@ + e,
            ApiErrorV::RateLimit => "被速率限制 (HTTP 429), 请稍后重试"@,
            ApiErrorV::IdleTimeout(millis) => "采样空闲超时 ("@ + duration_text(millis) + ")"@,
            ApiErrorV::Cancelled => "请求被取消"@,
            ApiErrorV::BadJson(e) => "反序列化响应失败: "@ + e,
        }
    }
}

impl ToolErrorV {
    /// The message of the error.
    pub open spec fn message(self) -> Seq<char> {
        match self {
            ToolErrorV::BadArgs(e) => "参数无效: "@ + e,
            ToolErrorV::Failed(e) => "执行失败: "@ + e,
            ToolErrorV::Timeout(secs) => "超时 ("@ + decimal(secs as nat) + "s)"@,
        }
    }
}

impl SessionErrorV {
    /// The message of the error.
    pub open spec fn message(self) -> Seq<char> {
        match self {
            SessionErrorV::NotFound(id) => "找不到会话: "@ + id,
            SessionErrorV::BadJson(e) => "解析 session JSON 失败: "@ + e,
            SessionErrorV::Replay(e) => "重放日志失败: "@ + e,
            SessionErrorV::Io(e) => "io: "@ + e,
        }
    }
}

impl AppErrorV {
    /// The message of the error.
    pub open spec fn message(self) -> Seq<char> {
        match self {
            AppErrorV::Api(e) => "API 错误: "@ + e.message(),
            AppErrorV::Tool(e) => "工具错误: "@ + e.message(),
            AppErrorV::Session(e) => "会话错误: "@ + e.message(),
            AppErrorV::Config(e) => "配置错误: "@ + e,
            AppErrorV::Io(e) => "io: "@ + e,
        }
    }
}

// ---------------------------------------------------------------------------
// The errors
// ---------------------------------------------------------------------------
/// Errors of the connection to the model.
#[derive(Debug)]
pub enum ApiError {
    /// The service answered with a status that is no success.
    Http { status: u16, body: String },
    /// The request could not be sent, or the answer broke off.
    Network(String),
    BadStream(String),
    /// The service answered with status 429.
    RateLimit,
    /// Nothing arrived for so many milliseconds.
    IdleTimeout(u64),
    Cancelled,
    /// A piece of the answer is not JSON.
    BadJson(String),
}

/// Errors of a tool.
#[derive(Debug)]
pub enum ToolError {
    BadArgs(String),
    Failed(String),
    /// The command did not end within so many seconds.
    Timeout(u64),
}

/// Errors of the session log.
#[derive(Debug)]
pub enum SessionError {
    NotFound(String),
    BadJson(String),
    Replay(String),
    Io(String),
}

/// Errors of the application.
#[derive(Debug)]
pub enum AppError {
    Api(ApiError),
    Tool(ToolError),
    Session(SessionError),
    Config(String),
    Io(String),
}

impl View for ApiError {
    type V = ApiErrorV;

    open spec fn view(&self) -> ApiErrorV {
        match self {
            ApiError::Http { status, body } => ApiErrorV::Http { status: *status, body: body@ },
            ApiError::Network(e) => ApiErrorV::Network(e@),
            ApiError::BadStream(e) => ApiErrorV::BadStream(e@),
            ApiError::RateLimit => ApiErrorV::RateLimit,
            ApiError::IdleTimeout(millis) => ApiErrorV::IdleTimeout(*millis),
            ApiError::Cancelled => ApiErrorV::Cancelled,
            ApiError::BadJson(e) => ApiErrorV::BadJson(e@),
        }
    }
}

impl View for ToolError {
    type V = ToolErrorV;

    open spec fn view(&self) -> ToolErrorV {
        match self {
            ToolError::BadArgs(e) => ToolErrorV::BadArgs(e@),
            ToolError::Failed(e) => ToolErrorV::Failed(e@),
            ToolError::Timeout(secs) => ToolErrorV::Timeout(*secs),
        }
    }
}

impl View for SessionError {
    type V = SessionErrorV;

    open spec fn view(&self) -> SessionErrorV {
        match self {
            SessionError::NotFound(id) => SessionErrorV::NotFound(id@),
            SessionError::BadJson(e) => SessionErrorV::BadJson(e@),
            SessionError::Replay(e) => SessionErrorV::Replay(e@),
            SessionError::Io(e) => SessionErrorV::Io(e@),
        }
    }
}

impl View for AppError {
    type V = AppErrorV;

    open spec fn view(&self) -> AppErrorV {
        match self {
            AppError::Api(e) => AppErrorV::Api(e@),
            AppError::Tool(e) => AppErrorV::Tool(e@),
            AppError::Session(e) => AppErrorV::Session(e@),
            AppError::Config(e) => AppErrorV::Config(e@),
            AppError::Io(e) => AppErrorV::Io(e@),
        }
    }
}

impl ApiError {
    /// The message of the error.
    pub fn message(&self) -> (r: String)
        ensures
            r@ == self@.message(),
    {
        match self {
            ApiError::Http { status, body } => {
                let head = join3("HTTP ", decimal_text(*status as u64).as_str(), ": ");
                join(head.as_str(), body.as_str())
            },
            ApiError::Network(e) => join("网络错误: ", e.as_str()),
            ApiError::BadStream(e) => join("SSE 流解析失败: ", e.as_str()),
            ApiError::RateLimit => "被速率限制 (HTTP 429), 请稍后重试".to_owned(),
            ApiError::IdleTimeout(millis) => join3(
                "采样空闲超时 (",
                format_duration(*millis).as_str(),
                ")",
            ),
            ApiError::Cancelled => "请求被取消".to_owned(),
            ApiError::BadJson(e) => join("反序列化响应失败: ", e.as_str()),
        }
    }
}

impl ToolError {
    /// The message of the error.
    pub fn message(&self) -> (r: String)
        ensures
            r@ == self@.message(),
    {
        match self {
            ToolError::BadArgs(e) => join("参数无效: ", e.as_str()),
            ToolError::Failed(e) => join("执行失败: ", e.as_str()),
            ToolError::Timeout(secs) => join3("超时 (", decimal_text(*secs).as_str(), "s)"),
        }
    }
}

impl SessionError {
    /// The message of the error.
    pub fn message(&self) -> (r: String)
        ensures
            r@ == self@.message(),
    {
        match self {
            SessionError::NotFound(id) => join("找不到会话: ", id.as_str()),
            SessionError::BadJson(e) => join("解析 session JSON 失败: ", e.as_str()),
            SessionError::Replay(e) => join("重放日志失败: ", e.as_str()),
            SessionError::Io(e) => join("io: ", e.as_str()),
        }
    }
}

impl AppError {
    /// The message of the error.
    pub fn message(&self) -> (r: String)
        ensures
            r@ == self@.message(),
    {
        match self {
            AppError::Api(e) => join("API 错误: ", e.message().as_str()),
            AppError::Tool(e) => join("工具错误: ", e.message().as_str()),
            AppError::Session(e) => join("会话错误: ", e.message().as_str()),
            AppError::Config(e) => join("配置错误: ", e.as_str()),
            AppError::Io(e) => join("io: ", e.as_str()),
        }
    }
}

impl From<ApiError> for AppError {
    fn from(e: ApiError) -> (r: AppError) {
        AppError::Api(e)
    }
}

impl vstd::std_specs::convert::FromSpecImpl<ApiError> for AppError {
    open spec fn obeys_from_spec() -> bool {
        true
    }

    open spec fn from_spec(e: ApiError) -> AppError {
        AppError::Api(e)
    }
}

impl From<ToolError> for AppError {
    fn from(e: ToolError) -> (r: AppError) {
        AppError::Tool(e)
    }
}

impl vstd::std_specs::convert::FromSpecImpl<ToolError> for AppError {
    open spec fn obeys_from_spec() -> bool {
        true
    }

    open spec fn from_spec(e: ToolError) -> AppError {
        AppError::Tool(e)
    }
}

impl From<SessionError> for AppError {
    fn from(e: SessionError) -> (r: AppError) {
        AppError::Session(e)
    }
}

impl vstd::std_specs::convert::FromSpecImpl<SessionError> for AppError {
    open spec fn obeys_from_spec() -> bool {
        true
    }

    open spec fn from_spec(e: SessionError) -> AppError {
        AppError::Session(e)
    }
}

/// Each error of the service has its own message, which holds what is known of
/// its cause.
pub proof fn law_api_messages(status: u16, e: Seq<char>, millis: u64)
    ensures
        (ApiErrorV::Http { status, body: e }).message() == "HTTP "@ + decimal(status as nat) + ": "@
            + e,
        ApiErrorV::Network(e).message() == "网络错误: "@ + e,
        ApiErrorV::BadStream(e).message() == "SSE 流解析失败: "@ + e,
        ApiErrorV::RateLimit.message() == "被速率限制 (HTTP 429), 请稍后重试"@,
        ApiErrorV::IdleTimeout(millis).message() == "采样空闲超时 ("@ + duration_text(millis) + ")"@,
        ApiErrorV::Cancelled.message() == "请求被取消"@,
        ApiErrorV::BadJson(e).message() == "反序列化响应失败: "@ + e,
{
}

/// Each error of a tool and of a session has its own message, which holds what is
/// known of its cause.
pub proof fn law_tool_and_session_messages(e: Seq<char>, secs: u64)
    ensures
        ToolErrorV::BadArgs(e).message() == "参数无效: "@ + e,
        ToolErrorV::Failed(e).message() == "执行失败: "@ + e,
        ToolErrorV::Timeout(secs).message() == "超时 ("@ + decimal(secs as nat) + "s)"@,
        SessionErrorV::NotFound(e).message() == "找不到会话: "@ + e,
        SessionErrorV::BadJson(e).message() == "解析 session JSON 失败: "@ + e,
        SessionErrorV::Replay(e).message() == "重放日志失败: "@ + e,
        SessionErrorV::Io(e).message() == "io: "@ + e,
{
}

/// An error of the whole says where it comes from, and then what the error there
/// says.
pub proof fn law_app_messages(a: ApiErrorV, t: ToolErrorV, s: SessionErrorV, e: Seq<char>)
    ensures
        AppErrorV::Api(a).message() == "API 错误: "@ + a.message(),
        AppErrorV::Tool(t).message() == "工具错误: "@ + t.message(),
        AppErrorV::Session(s).message() == "会话错误: "@ + s.message(),
        AppErrorV::Config(e).message() == "配置错误: "@ + e,
        AppErrorV::Io(e).message() == "io: "@ + e,
{
}

} // verus!
