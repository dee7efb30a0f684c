//! The shapes of protocol messages that the runtime reads and writes.
use vstd::prelude::*;
use vstd::string::*;

use crate::json;
use crate::json::Json;
use crate::text;
use crate::text::str_eq;

verus! {

/// The header that names a session.
pub const SESSION_ID_HEADER: &'static str = "MCP-Session-Id";

/// A revision of the protocol.
#[allow(non_camel_case_types)]
#[derive(Debug, Clone, Copy, PartialEq, Eq, Structural)]
pub enum ProtocolVersion {
    V_2025_11_25,
    V_2026_07_28,
}

/// The revision of a request that names none.
pub fn default_negotiated_version() -> (r: ProtocolVersion)
    ensures
        r == ProtocolVersion::V_2025_11_25,
{
    ProtocolVersion::V_2025_11_25
}

/// What an answer says.
#[derive(Debug)]
pub enum ProtocolResponse {
    /// The result of a request.
    JsonRpcSuccess { id: Json, result: Json },
    /// The refusal or the failure of a request.
    JsonRpcError { id: Option<Json>, code: i32, message: String, data: Option<Json> },
    /// A notification was taken in.
    NotificationAccepted,
}

/// An answer, with the HTTP status that carries it.
#[derive(Debug)]
pub struct ProtocolHttpResponse {
    pub http_status: u16,
    pub session_id_header: Option<String>,
    pub response: ProtocolResponse,
}

/// What an answer says, over plain values.
pub enum BodyView {
    Success { id: json::Tree, result: json::Tree },
    Error { id: Option<json::Tree>, code: int, message: Seq<char>, data: Option<json::Tree> },
    Accepted,
}

/// An answer over plain values.
pub struct ReplyView {
    pub http_status: int,
    pub session_id_header: Option<Seq<char>>,
    pub body: BodyView,
}

impl DeepView for ProtocolResponse {
    type V = BodyView;

    open spec fn deep_view(&self) -> BodyView {
        match self {
            ProtocolResponse::JsonRpcSuccess { id, result } => BodyView::Success {
                id: id.tree(),
                result: result.tree(),
            },
            ProtocolResponse::JsonRpcError { id, code, message, data } => BodyView::Error {
                id: id.deep_view(),
                code: *code as int,
                message: message@,
                data: data.deep_view(),
            },
            ProtocolResponse::NotificationAccepted => BodyView::Accepted,
        }
    }
}

impl DeepView for ProtocolHttpResponse {
    type V = ReplyView;

    open spec fn deep_view(&self) -> ReplyView {
        ReplyView {
            http_status: self.http_status as int,
            session_id_header: self.session_id_header.deep_view(),
            body: self.response.deep_view(),
        }
    }
}

/// The answer that carries an error.
pub open spec fn error_reply(
    http_status: int,
    id: Option<json::Tree>,
    code: int,
    message: Seq<char>,
    data: Option<json::Tree>,
) -> ReplyView {
    ReplyView {
        http_status,
        session_id_header: None,
        body: BodyView::Error { id, code, message, data },
    }
}

/// The answer that carries a result.
pub open spec fn success_reply(id: json::Tree, result: json::Tree) -> ReplyView {
    ReplyView {
        http_status: 200,
        session_id_header: None,
        body: BodyView::Success { id, result },
    }
}

/// The answer to a notification.
pub open spec fn accepted_reply() -> ReplyView {
    ReplyView { http_status: 202, session_id_header: None, body: BodyView::Accepted }
}

/// Builds the answer that carries an error.
pub fn protocol_http_error(
    http_status: u16,
    id: Option<Json>,
    code: i32,
    message: String,
    data: Option<Json>,
) -> (r: ProtocolHttpResponse)
    ensures
        r.deep_view() == error_reply(
            http_status as int,
            id.deep_view(),
            code as int,
            message@,
            data.deep_view(),
        ),
{
    ProtocolHttpResponse {
        http_status,
        session_id_header: None,
        response: ProtocolResponse::JsonRpcError { id, code, message, data },
    }
}

/// Builds the answer that carries a result.
pub fn protocol_http_success(id: Json, result: Json) -> (r: ProtocolHttpResponse)
    ensures
        r.deep_view() == success_reply(id.tree(), result.tree()),
{
    ProtocolHttpResponse {
        http_status: 200,
        session_id_header: None,
        response: ProtocolResponse::JsonRpcSuccess { id, result },
    }
}

/// Builds the answer to a notification.
pub fn notification_accepted() -> (r: ProtocolHttpResponse)
    ensures
        r.deep_view() == accepted_reply(),
{
    ProtocolHttpResponse {
        http_status: 202,
        session_id_header: None,
        response: ProtocolResponse::NotificationAccepted,
    }
}

/// Who may read a cached answer.
#[derive(Debug, Clone, Copy, PartialEq, Eq, Structural)]
pub enum CacheScope {
    Private,
    Public,
}

/// The severity of a log message, from least to most severe.
#[derive(Debug, Clone, Copy, PartialEq, Eq, Structural)]
pub enum LogLevel {
    Debug,
    Info,
    Notice,
    Warning,
    Error,
    Critical,
    Alert,
    Emergency,
}

impl LogLevel {
    /// The place of a level among the levels.
    pub open spec fn severity(self) -> int {
        match self {
            LogLevel::Debug => 0,
            LogLevel::Info => 1,
            LogLevel::Notice => 2,
            LogLevel::Warning => 3,
            LogLevel::Error => 4,
            LogLevel::Critical => 5,
            LogLevel::Alert => 6,
            LogLevel::Emergency => 7,
        }
    }

    fn rank(self) -> (r: u8)
        ensures
            r == self.severity(),
    {
        match self {
            LogLevel::Debug => 0,
            LogLevel::Info => 1,
            LogLevel::Notice => 2,
            LogLevel::Warning => 3,
            LogLevel::Error => 4,
            LogLevel::Critical => 5,
            LogLevel::Alert => 6,
            LogLevel::Emergency => 7,
        }
    }

    /// Whether a message of this level passes a floor.
    pub fn permits(self, floor: LogLevel) -> (r: bool)
        ensures
            r == (self.severity() >= floor.severity()),
    {
        self.rank() >= floor.rank()
    }

    /// The name of a level.
    pub open spec fn name_text(self) -> Seq<char> {
        match self {
            LogLevel::Debug => "debug"@,
            LogLevel::Info => "info"@,
            LogLevel::Notice => "notice"@,
            LogLevel::Warning => "warning"@,
            LogLevel::Error => "error"@,
            LogLevel::Critical => "critical"@,
            LogLevel::Alert => "alert"@,
            LogLevel::Emergency => "emergency"@,
        }
    }

    /// The name of the level.
    pub fn name(self) -> (r: &'static str)
        ensures
            r@ == self.name_text(),
    {
        match self {
            LogLevel::Debug => "debug",
            LogLevel::Info => "info",
            LogLevel::Notice => "notice",
            LogLevel::Warning => "warning",
            LogLevel::Error => "error",
            LogLevel::Critical => "critical",
            LogLevel::Alert => "alert",
            LogLevel::Emergency => "emergency",
        }
    }

    /// The level that a name stands for.
    pub open spec fn of_text(name: Seq<char>) -> Option<LogLevel> {
        if name == "debug"@ {
            Some(LogLevel::Debug)
        } else if name == "info"@ {
            Some(LogLevel::Info)
        } else if name == "notice"@ {
            Some(LogLevel::Notice)
        } else if name == "warning"@ {
            Some(LogLevel::Warning)
        } else if name == "error"@ {
            Some(LogLevel::Error)
        } else if name == "critical"@ {
            Some(LogLevel::Critical)
        } else if name == "alert"@ {
            Some(LogLevel::Alert)
        } else if name == "emergency"@ {
            Some(LogLevel::Emergency)
        } else {
            None
        }
    }

    /// The level that a name stands for.
    pub fn of_name(name: &str) -> (r: Option<LogLevel>)
        ensures
            r == LogLevel::of_text(name@),
    {
        if str_eq(name, "debug") {
            Some(LogLevel::Debug)
        } else if str_eq(name, "info") {
            Some(LogLevel::Info)
        } else if str_eq(name, "notice") {
            Some(LogLevel::Notice)
        } else if str_eq(name, "warning") {
            Some(LogLevel::Warning)
        } else if str_eq(name, "error") {
            Some(LogLevel::Error)
        } else if str_eq(name, "critical") {
            Some(LogLevel::Critical)
        } else if str_eq(name, "alert") {
            Some(LogLevel::Alert)
        } else if str_eq(name, "emergency") {
            Some(LogLevel::Emergency)
        } else {
            None
        }
    }
}

/// A message that passes a floor passes every lower one.
pub proof fn law_lower_floors_permit_more(level: LogLevel, floor: LogLevel, lower: LogLevel)
    requires
        level.severity() >= floor.severity(),
        lower.severity() <= floor.severity(),
    ensures
        level.severity() >= lower.severity(),
{
}

/// The field of the modern wire that carries a progress token.
pub const PROGRESS_TOKEN_KEY: &'static str = "io.modelcontextprotocol/progressToken";

/// The field of the modern wire that carries a log level.
pub const LOG_LEVEL_KEY: &'static str = "io.modelcontextprotocol/logLevel";

/// The field of a `_meta` value.
pub open spec fn meta_field(meta: Option<json::Tree>, name: Seq<char>) -> Option<json::Tree> {
    match meta {
        Some(m) => json::tree_get(m, name),
        None => None,
    }
}

/// The progress token that a request names: on the modern wire under its full
/// name, and there or on the legacy wire under the bare one.
pub open spec fn progress_value(meta: Option<json::Tree>, version: ProtocolVersion) -> Option<
    json::Tree,
> {
    if version == ProtocolVersion::V_2026_07_28 && meta_field(meta, PROGRESS_TOKEN_KEY@) is Some {
        meta_field(meta, PROGRESS_TOKEN_KEY@)
    } else {
        meta_field(meta, "progressToken"@)
    }
}

/// Finds the progress token of a request, which must be a text or a number.
pub fn extract_request_progress_token(meta: Option<&Json>, version: ProtocolVersion) -> (r: Result<
    Option<Json>,
    String,
>)
    ensures
        match progress_value(meta.deep_view(), version) {
            None => r matches Ok(None),
            Some(t) => if t is Str || t is Number {
                r matches Ok(Some(j)) && j.tree() == t
            } else {
                r matches Err(e) && e@ == "progressToken must be a string or a number"@
            },
        },
{
    let meta: &Json = match meta {
        None => {
            return Ok(None);
        },
        Some(m) => m,
    };
    let mut found: Option<&Json> = None;
    if version == ProtocolVersion::V_2026_07_28 {
        found = meta.get(PROGRESS_TOKEN_KEY);
    }
    if found.is_none() {
        found = meta.get("progressToken");
    }
    match found {
        None => Ok(None),
        Some(j) => match j {
            Json::Str(_) => Ok(Some(j.copy())),
            Json::Number(_) => Ok(Some(j.copy())),
            _ => Err("progressToken must be a string or a number".to_owned()),
        },
    }
}

/// Finds the log level that a request of the modern wire asks for. The legacy
/// wire has none.
pub fn extract_request_log_level(meta: Option<&Json>, version: ProtocolVersion) -> (r: Result<
    Option<LogLevel>,
    String,
>)
    ensures
        if version != ProtocolVersion::V_2026_07_28 {
            r == Ok::<Option<LogLevel>, String>(None)
        } else {
            match meta_field(meta.deep_view(), LOG_LEVEL_KEY@) {
                None => r == Ok::<Option<LogLevel>, String>(None),
                Some(json::Tree::Str(t)) => match LogLevel::of_text(t) {
                    Some(l) => r == Ok::<Option<LogLevel>, String>(Some(l)),
                    None => r is Err,
                },
                Some(_) => r is Err,
            }
        },
        r matches Err(e) ==> e@ == "logLevel must be one of the known log levels"@,
{
    if version != ProtocolVersion::V_2026_07_28 {
        return Ok(None);
    }
    let meta: &Json = match meta {
        None => {
            return Ok(None);
        },
        Some(m) => m,
    };
    let value: &Json = match meta.get(LOG_LEVEL_KEY) {
        None => {
            return Ok(None);
        },
        Some(v) => v,
    };
    match value.as_str() {
        Some(t) => match LogLevel::of_name(t) {
            Some(l) => Ok(Some(l)),
            None => Err("logLevel must be one of the known log levels".to_owned()),
        },
        None => Err("logLevel must be one of the known log levels".to_owned()),
    }
}

/// The legacy wire does not know the full name of the progress token.
pub proof fn law_legacy_reads_the_bare_token_only(
    meta: Map<Seq<char>, json::Tree>,
    token: json::Tree,
)
    requires
        !meta.contains_key("progressToken"@),
    ensures
        progress_value(
            Some(json::Tree::Object(meta.insert(PROGRESS_TOKEN_KEY@, token))),
            ProtocolVersion::V_2025_11_25,
        ) is None,
{
    reveal_strlit("progressToken");
    reveal_strlit("io.modelcontextprotocol/progressToken");
    assert(PROGRESS_TOKEN_KEY@.len() != "progressToken"@.len());
}

/// The JSON of a block of text.
pub open spec fn text_block(text: Seq<char>) -> json::Tree {
    json::object_of(
        seq![("type"@, json::Tree::Str("text"@)), ("text"@, json::Tree::Str(text))],
    )
}

/// A block of a tool's answer.
#[derive(Debug)]
pub enum ToolContent {
    /// Text.
    Text { text: String },
    /// Anything else, as it is written.
    Other { value: Json },
}

impl ToolContent {
    /// A block of text.
    pub fn text(text: String) -> (r: ToolContent)
        ensures
            r == (ToolContent::Text { text }),
    {
        ToolContent::Text { text }
    }

    /// The JSON of the block.
    pub open spec fn tree(self) -> json::Tree {
        match self {
            ToolContent::Text { text } => text_block(text@),
            ToolContent::Other { value } => value.tree(),
        }
    }

    /// The JSON of the block.
    pub fn to_json(&self) -> (r: Json)
        ensures
            r.tree() == self.tree(),
    {
        proof {
            reveal_with_fuel(json::map_of, 3);
        }
        match self {
            ToolContent::Text { text } => Json::object().with("type", Json::text("text")).with(
                "text",
                Json::text(text.as_str()),
            ),
            ToolContent::Other { value } => value.copy(),
        }
    }
}

/// The answer of a tool.
#[derive(Debug)]
pub struct ToolCallResult {
    pub content: Vec<ToolContent>,
    pub structured_content: Option<Json>,
    pub is_error: bool,
    pub meta: Option<Json>,
}

/// The JSON of a run of blocks.
pub open spec fn content_trees(s: Seq<ToolContent>) -> Seq<json::Tree> {
    Seq::new(s.len(), |i: int| s[i].tree())
}

/// An object with one more field where a value is given.
pub open spec fn insert_some(
    m: Map<Seq<char>, json::Tree>,
    name: Seq<char>,
    value: Option<json::Tree>,
) -> Map<Seq<char>, json::Tree> {
    match value {
        Some(v) => m.insert(name, v),
        None => m,
    }
}

/// The JSON of a tool's answer, from its parts.
pub open spec fn result_tree(
    content: Seq<json::Tree>,
    structured: Option<json::Tree>,
    is_error: bool,
    meta: Option<json::Tree>,
) -> json::Tree {
    let m = Map::<Seq<char>, json::Tree>::empty().insert(
        "content"@,
        json::Tree::Array(content),
    ).insert("isError"@, json::Tree::Bool(is_error));
    json::Tree::Object(insert_some(insert_some(m, "structuredContent"@, structured), "_meta"@, meta))
}

pub(crate) fn with_some(object: Json, name: &str, value: Option<Json>) -> (r: Json)
    requires
        object is Object,
    ensures
        r is Object,
        r.tree() == json::Tree::Object(
            insert_some(object.tree()->Object_0, name@, value.deep_view()),
        ),
{
    match value {
        Some(v) => object.with(name, v),
        None => object,
    }
}

impl ToolCallResult {
    /// The JSON of the answer.
    pub open spec fn tree(self) -> json::Tree {
        result_tree(
            content_trees(self.content@),
            self.structured_content.deep_view(),
            self.is_error,
            self.meta.deep_view(),
        )
    }

    /// The JSON of the answer.
    pub fn to_json(&self) -> (r: Json)
        ensures
            r.tree() == self.tree(),
    {
        let mut blocks: Vec<Json> = Vec::new();
        let mut i: usize = 0;
        while i < self.content.len()
            invariant
                i <= self.content@.len(),
                blocks@.len() == i,
                forall|j: int|
                    0 <= j < i ==> (#[trigger] blocks@[j]).tree() == self.content@[j].tree(),
            decreases self.content.len() - i,
        {
            blocks.push(self.content[i].to_json());
            i += 1;
        }
        proof {
            json::lemma_elements(blocks@);
            assert(json::elements(blocks@) =~= content_trees(self.content@));
        }
        let base: Json = Json::object().with("content", Json::Array(blocks)).with(
            "isError",
            Json::Bool(self.is_error),
        );
        let structured: Option<Json> = match &self.structured_content {
            Some(v) => Some(v.copy()),
            None => None,
        };
        let meta: Option<Json> = match &self.meta {
            Some(v) => Some(v.copy()),
            None => None,
        };
        with_some(with_some(base, "structuredContent", structured), "_meta", meta)
    }

    /// The answer after its structured part was found not to fit the tool's
    /// schema: the part is dropped, and the answer becomes an error that says so.
    pub fn fail_schema(self, tool_name: &str, detail: &str) -> (r: ToolCallResult)
        ensures
            r.structured_content is None,
            r.is_error,
            r.meta == self.meta,
            content_trees(r.content@) == content_trees(self.content@).push(
                text_block(schema_failure(tool_name@, detail@)),
            ),
    {
        let mut text: String = "tool '".to_owned();
        text.append(tool_name);
        text.append(
            "' declared an outputSchema but returned non-conforming structuredContent: ",
        );
        text.append(detail);
        let mut content: Vec<ToolContent> = self.content;
        let ghost before = content@;
        let block: ToolContent = ToolContent::text(text);
        content.push(block);
        proof {
            assert(content_trees(content@) =~= content_trees(before).push(block.tree()));
        }
        ToolCallResult { content, structured_content: None, is_error: true, meta: self.meta }
    }
}

/// What an answer says whose structured part does not fit the tool's schema.
pub open spec fn schema_failure(tool_name: Seq<char>, detail: Seq<char>) -> Seq<char> {
    "tool '"@ + tool_name
        + "' declared an outputSchema but returned non-conforming structuredContent: "@ + detail
}

/// A name stands for a level exactly where it is the name of that level, and the
/// levels are named, from the least severe to the most, as syslog names them.
pub proof fn law_level_names_read_back(level: LogLevel, name: Seq<char>)
    ensures
        LogLevel::of_text(name) == Some(level) <==> name == level.name_text(),
        level.name_text() == seq![
            "debug"@,
            "info"@,
            "notice"@,
            "warning"@,
            "error"@,
            "critical"@,
            "alert"@,
            "emergency"@,
        ][level.severity()],
{
    reveal_strlit("debug");
    reveal_strlit("info");
    reveal_strlit("notice");
    reveal_strlit("warning");
    reveal_strlit("error");
    reveal_strlit("critical");
    reveal_strlit("alert");
    reveal_strlit("emergency");
    assert("debug"@[0] == 'd' && "error"@[0] == 'e' && "alert"@[0] == 'a');
    assert("notice"@.len() == 6 && "critical"@.len() == 8 && "emergency"@.len() == 9);
    assert("warning"@.len() == 7 && "info"@.len() == 4 && "debug"@.len() == 5 && "error"@.len()
        == 5 && "alert"@.len() == 5);
}

/// The levels are told apart and ordered by what they are for: each is more
/// severe than the one before it.
pub proof fn law_levels_are_ordered(a: LogLevel, b: LogLevel)
    ensures
        a.severity() == b.severity() <==> a == b,
        LogLevel::Debug.severity() < LogLevel::Info.severity() < LogLevel::Notice.severity()
            < LogLevel::Warning.severity() < LogLevel::Error.severity()
            < LogLevel::Critical.severity() < LogLevel::Alert.severity()
            < LogLevel::Emergency.severity(),
{
}

/// On the modern wire the full name of the progress token counts before the bare
/// one, and the bare one still counts where the full one is missing; on the
/// legacy wire only the bare one counts.
pub proof fn law_progress_token_by_wire(meta: Map<Seq<char>, json::Tree>)
    ensures
        ({
            let full = json::tree_get(
                json::Tree::Object(meta),
                "io.modelcontextprotocol/progressToken"@,
            );
            let bare = json::tree_get(json::Tree::Object(meta), "progressToken"@);
            &&& progress_value(Some(json::Tree::Object(meta)), ProtocolVersion::V_2026_07_28) == (
            if full is Some {
                full
            } else {
                bare
            })
            &&& progress_value(Some(json::Tree::Object(meta)), ProtocolVersion::V_2025_11_25)
                == bare
        }),
{
}

/// An error is told under the id, the status, the code, the words and the detail
/// that it was made with, a result under status 200 with its id, and a
/// notification is accepted with status 202; none of them names a session.
pub proof fn law_answers_carry_what_they_are_given(
    status: int,
    id: json::Tree,
    code: int,
    message: Seq<char>,
    data: Option<json::Tree>,
    result: json::Tree,
)
    ensures
        error_reply(status, Some(id), code, message, data).http_status == status,
        error_reply(status, Some(id), code, message, data).body matches BodyView::Error {
            id: i,
            code: c,
            message: m,
            data: d,
        } && i == Some(id) && c == code && m == message && d == data,
        success_reply(id, result).http_status == 200,
        success_reply(id, result).body matches BodyView::Success { id: i, result: r } && i == id
            && r == result,
        accepted_reply().http_status == 202,
        accepted_reply().body is Accepted,
        error_reply(status, Some(id), code, message, data).session_id_header is None,
        success_reply(id, result).session_id_header is None,
        accepted_reply().session_id_header is None,
{
}

/// The result of a tool is written with its blocks in order, with whether it
/// failed, and with its structured part and its `_meta` exactly where it has them.
pub proof fn law_results_are_written_whole(result: ToolCallResult)
    ensures
        json::tree_get(result.tree(), "isError"@) == Some(json::Tree::Bool(result.is_error)),
        json::tree_get(result.tree(), "structuredContent"@)
            == result.structured_content.deep_view(),
        json::tree_get(result.tree(), "_meta"@) == result.meta.deep_view(),
        json::tree_get(result.tree(), "content"@) matches Some(json::Tree::Array(blocks))
            && blocks.len() == result.content@.len() && forall|i: int|
            0 <= i < blocks.len() ==> #[trigger] blocks[i] == (match result.content@[i] {
                ToolContent::Text { text } => text_block(text@),
                ToolContent::Other { value } => value.tree(),
            }),
        forall|field: Seq<char>|
            field != "isError"@ && field != "structuredContent"@ && field != "_meta"@ && field
                != "content"@ ==> #[trigger] json::tree_get(result.tree(), field) is None,
{
    reveal_strlit("isError");
    reveal_strlit("structuredContent");
    reveal_strlit("_meta");
    reveal_strlit("content");
    assert("isError"@[0] == 'i' && "_meta"@[0] == '_');
    assert("isError"@.len() == 7 && "structuredContent"@.len() == 17 && "_meta"@.len() == 5
        && "content"@.len() == 7);
    assert("content"@[0] == 'c');
}

/// A block of text says that it is text, and says the text.
pub proof fn law_text_blocks_hold_their_text(text: Seq<char>)
    ensures
        json::tree_get(text_block(text), "type"@) == Some(json::Tree::Str("text"@)),
        json::tree_get(text_block(text), "text"@) == Some(json::Tree::Str(text)),
{
    reveal_with_fuel(json::map_of, 3);
    reveal_strlit("type");
    reveal_strlit("text");
    assert("type"@[1] == 'y' && "text"@[1] == 'e');
}

/// A result whose structured part does not fit says so: what was said before stays in
/// front, one block more names the tool and ends with what does not fit, the part
/// itself is gone, and the result is an error.
pub proof fn law_misfit_results_say_so(
    result: ToolCallResult,
    tool_name: &str,
    detail: &str,
    r: ToolCallResult,
)
    requires
        call_ensures(ToolCallResult::fail_schema, (result, tool_name, detail), r),
    ensures
        r.is_error,
        r.structured_content is None,
        r.meta == result.meta,
        r.content@.len() == result.content@.len() + 1,
        forall|i: int|
            0 <= i < result.content@.len() ==> (#[trigger] r.content@[i]).tree()
                == result.content@[i].tree(),
        ({
            let told = json::tree_get(r.content@.last().tree(), "text"@);
            told matches Some(json::Tree::Str(t)) && detail@.len() <= t.len() && t.skip(
                t.len() - detail@.len(),
            ) == detail@ && 6 + tool_name@.len() <= t.len() && t.subrange(
                6,
                6int + tool_name@.len(),
            ) == tool_name@
        }),
{
    let all = content_trees(r.content@);
    let own = content_trees(result.content@);
    assert(all.len() == r.content@.len());
    assert(own.len() == result.content@.len());
    assert forall|i: int| 0 <= i < result.content@.len() implies (#[trigger] r.content@[i]).tree()
        == result.content@[i].tree() by {
        assert(all[i] == own[i]);
    }
    assert(all.last() == r.content@.last().tree());
    let t = schema_failure(tool_name@, detail@);
    law_text_blocks_hold_their_text(t);
    reveal_strlit("tool '");
    assert(t.skip(t.len() - detail@.len()) =~= detail@);
    assert(t.subrange(6, 6int + tool_name@.len()) =~= tool_name@);
}

/// A progress token is what the request says it is, and only a text or a number is one;
/// a request that names none is not at fault.
pub proof fn law_progress_tokens_are_texts_or_numbers(
    meta: Option<&Json>,
    version: ProtocolVersion,
    r: Result<Option<Json>, String>,
)
    requires
        call_ensures(extract_request_progress_token, (meta, version), r),
    ensures
        r matches Ok(Some(t)) ==> (t.tree() is Str || t.tree() is Number) && progress_value(
            meta.deep_view(),
            version,
        ) == Some(t.tree()),
        r matches Ok(None) ==> progress_value(meta.deep_view(), version) is None,
        r is Err ==> (progress_value(meta.deep_view(), version) matches Some(t) && !(t is Str)
            && !(t is Number)),
        meta is None ==> r matches Ok(None),
{
}

/// A log level is asked for by its name on the modern wire, and a name that stands for
/// none is at fault; the older wire asks for none.
pub proof fn law_log_levels_are_asked_for_by_name(
    meta: Json,
    version: ProtocolVersion,
    r: Result<Option<LogLevel>, String>,
)
    requires
        call_ensures(extract_request_log_level, (Some(&meta), version), r),
    ensures
        version is V_2025_11_25 ==> r matches Ok(None),
        version is V_2026_07_28 ==> match json::tree_get(
            meta.tree(),
            "io.modelcontextprotocol/logLevel"@,
        ) {
            None => r matches Ok(None),
            Some(json::Tree::Str(t)) => match r {
                Ok(Some(level)) => t == level.name_text(),
                Ok(None) => false,
                Err(_) => forall|level: LogLevel| t != #[trigger] level.name_text(),
            },
            Some(_) => r is Err,
        },
{
    if version is V_2026_07_28 {
        if let Some(json::Tree::Str(t)) = json::tree_get(
            meta.tree(),
            "io.modelcontextprotocol/logLevel"@,
        ) {
            assert forall|level: LogLevel| r is Err implies t != #[trigger] level.name_text() by {
                law_level_names_read_back(level, t);
            }
            if let Ok(Some(level)) = r {
                law_level_names_read_back(level, t);
            }
        }
    }
}

/// What an answer is made from stands in it: its status, the id of its request, its
/// code, its words and its detail, or its result.
pub proof fn law_answers_are_made_of_their_parts(
    http_status: u16,
    id: Option<Json>,
    code: i32,
    message: String,
    data: Option<Json>,
    error: ProtocolHttpResponse,
    own_id: Json,
    result: Json,
    success: ProtocolHttpResponse,
    accepted: ProtocolHttpResponse,
)
    requires
        call_ensures(protocol_http_error, (http_status, id, code, message, data), error),
        call_ensures(protocol_http_success, (own_id, result), success),
        call_ensures(notification_accepted, (), accepted),
    ensures
        error.deep_view().http_status == http_status,
        error.deep_view().session_id_header is None,
        error.deep_view().body == (BodyView::Error {
            id: id.deep_view(),
            code: code as int,
            message: message@,
            data: data.deep_view(),
        }),
        success.deep_view().http_status == 200,
        success.deep_view().session_id_header is None,
        success.deep_view().body == (BodyView::Success {
            id: own_id.tree(),
            result: result.tree(),
        }),
        accepted.deep_view().http_status == 202,
        accepted.deep_view().body is Accepted,
{
}

/// A message is logged where it is at least as severe as the floor.
pub proof fn law_severe_messages_pass_the_floor(level: LogLevel, floor: LogLevel, r: bool)
    requires
        call_ensures(LogLevel::permits, (level, floor), r),
    ensures
        level == floor ==> r,
        level is Emergency ==> r,
        floor is Debug ==> r,
        level is Debug && !(floor is Debug) ==> !r,
{
}

} // verus!
