//! Reading a backend's answer as a prompt or as a resource.
use vstd::prelude::*;
use vstd::string::*;

use crate::json;
use crate::json::Json;
use crate::outside;
use crate::protocol;
use crate::protocol::{CacheScope, ToolCallResult, ToolContent};
use crate::text;
use crate::text::{decimal, str_eq};

verus! {

/// What a backend call serves.
#[derive(Debug, Clone, Copy, PartialEq, Eq, Structural)]
pub enum InvocationSurface {
    Tool,
    Prompt,
    Resource,
    ResourceTemplate,
    Completion,
}

/// The name of a surface.
pub open spec fn surface_text(s: InvocationSurface) -> Seq<char> {
    match s {
        InvocationSurface::Tool => "tool"@,
        InvocationSurface::Prompt => "prompt"@,
        InvocationSurface::Resource => "resource"@,
        InvocationSurface::ResourceTemplate => "resource_template"@,
        InvocationSurface::Completion => "completion"@,
    }
}

impl InvocationSurface {
    /// The name of the surface.
    pub fn as_label(self) -> (r: &'static str)
        ensures
            r@ == surface_text(self),
    {
        match self {
            InvocationSurface::Tool => "tool",
            InvocationSurface::Prompt => "prompt",
            InvocationSurface::Resource => "resource",
            InvocationSurface::ResourceTemplate => "resource_template",
            InvocationSurface::Completion => "completion",
        }
    }
}

/// Why an answer cannot be read as what was asked for.
#[derive(Debug, Clone)]
pub enum SurfaceDecodeError {
    /// The backend reported an error.
    BackendError { message: String },
    /// The answer holds no text.
    EmptyResponse,
    /// The answer has another shape.
    MalformedResponse { reason: String },
}

/// A failure to read over plain values.
pub enum DecodeErrorView {
    BackendError { message: Seq<char> },
    EmptyResponse,
    MalformedResponse { reason: Seq<char> },
}

impl DeepView for SurfaceDecodeError {
    type V = DecodeErrorView;

    open spec fn deep_view(&self) -> DecodeErrorView {
        match self {
            SurfaceDecodeError::BackendError { message } => DecodeErrorView::BackendError {
                message: message@,
            },
            SurfaceDecodeError::EmptyResponse => DecodeErrorView::EmptyResponse,
            SurfaceDecodeError::MalformedResponse {
                reason,
            } => DecodeErrorView::MalformedResponse { reason: reason@ },
        }
    }
}

/// The text of a failure to read.
pub open spec fn decode_error_text(e: DecodeErrorView) -> Seq<char> {
    match e {
        DecodeErrorView::BackendError { message } => "backend returned an error response: "@
            + message,
        DecodeErrorView::EmptyResponse => "backend response was empty"@,
        DecodeErrorView::MalformedResponse { reason } =>
            "backend response is not a valid surface envelope: "@ + reason,
    }
}

impl SurfaceDecodeError {
    /// The text of the failure.
    pub fn message(&self) -> (r: String)
        ensures
            r@ == decode_error_text(self.deep_view()),
    {
        match self {
            SurfaceDecodeError::BackendError { message } => {
                let mut s: String = "backend returned an error response: ".to_owned();
                s.append(message.as_str());
                s
            },
            SurfaceDecodeError::EmptyResponse => "backend response was empty".to_owned(),
            SurfaceDecodeError::MalformedResponse { reason } => {
                let mut s: String =
                    "backend response is not a valid surface envelope: ".to_owned();
                s.append(reason.as_str());
                s
            },
        }
    }
}

/// The first text among the blocks of an answer.
pub open spec fn first_text(s: Seq<ToolContent>) -> Option<Seq<char>>
    decreases s.len(),
{
    if s.len() == 0 {
        None
    } else {
        match s[0] {
            ToolContent::Text { text } => Some(text@),
            _ => first_text(s.drop_first()),
        }
    }
}

/// The first text among the blocks of an answer.
pub fn primary_text_body(result: &ToolCallResult) -> (r: Option<&str>)
    ensures
        r.deep_view() == first_text(result.content@),
{
    let mut i: usize = 0;
    proof {
        assert(result.content@.skip(0) =~= result.content@);
    }
    while i < result.content.len()
        invariant
            i <= result.content@.len(),
            first_text(result.content@.skip(i as int)) == first_text(result.content@),
        decreases result.content.len() - i,
    {
        proof {
            assert(result.content@.skip(i as int)[0] == result.content@[i as int]);
            assert(result.content@.skip(i as int).drop_first() =~= result.content@.skip(i + 1));
        }
        if let ToolContent::Text { text } = &result.content[i] {
            return Some(text.as_str());
        }
        i += 1;
    }
    None
}

/// The text of an answer to be read, or why there is none.
pub open spec fn body_of(result: ToolCallResult) -> Result<Seq<char>, DecodeErrorView> {
    if result.is_error {
        Err(
            DecodeErrorView::BackendError {
                message: match first_text(result.content@) {
                    Some(t) => t,
                    None => "tool returned isError without a text body"@,
                },
            },
        )
    } else {
        match first_text(result.content@) {
            Some(t) => Ok(t),
            None => Err(DecodeErrorView::EmptyResponse),
        }
    }
}

fn text_body(result: &ToolCallResult) -> (r: Result<&str, SurfaceDecodeError>)
    ensures
        match r {
            Ok(t) => body_of(*result) == Ok::<Seq<char>, DecodeErrorView>(t@),
            Err(e) => body_of(*result) == Err::<Seq<char>, DecodeErrorView>(e.deep_view()),
        },
{
    let body: Option<&str> = primary_text_body(result);
    if result.is_error {
        let message: String = match body {
            Some(t) => t.to_owned(),
            None => "tool returned isError without a text body".to_owned(),
        };
        return Err(SurfaceDecodeError::BackendError { message });
    }
    match body {
        Some(t) => Ok(t),
        None => Err(SurfaceDecodeError::EmptyResponse),
    }
}

fn malformed(reason: String) -> (r: SurfaceDecodeError)
    ensures
        r.deep_view() == (DecodeErrorView::MalformedResponse { reason: reason@ }),
{
    SurfaceDecodeError::MalformedResponse { reason }
}

/// A failure of shape.
pub open spec fn bad_shape(reason: Seq<char>) -> DecodeErrorView {
    DecodeErrorView::MalformedResponse { reason }
}

/// One part of a resource.
#[derive(Debug)]
pub enum ResourceContents {
    Text(ResourceTextContents),
    Blob(BlobResourceContents),
}

/// A part that is text.
#[derive(Debug)]
pub struct ResourceTextContents {
    pub uri: String,
    pub mime_type: Option<String>,
    pub text: String,
    pub meta: Option<Json>,
}

/// A part that is binary, as base64 text.
#[derive(Debug)]
pub struct BlobResourceContents {
    pub uri: String,
    pub mime_type: Option<String>,
    pub blob: String,
    pub meta: Option<Json>,
}

/// A resource as it was read.
#[derive(Debug)]
pub struct ResourceReadResult {
    pub contents: Vec<ResourceContents>,
    pub ttl_ms: Option<u64>,
    pub cache_scope: Option<CacheScope>,
    pub cache_token: Option<String>,
}

/// One part of a resource over plain values.
pub struct ContentsView {
    pub is_text: bool,
    pub uri: Seq<char>,
    pub mime_type: Option<Seq<char>>,
    /// The text, or the base64 text of a binary part.
    pub body: Seq<char>,
    pub meta: Option<json::Tree>,
}

impl DeepView for ResourceContents {
    type V = ContentsView;

    open spec fn deep_view(&self) -> ContentsView {
        match self {
            ResourceContents::Text(t) => ContentsView {
                is_text: true,
                uri: t.uri@,
                mime_type: t.mime_type.deep_view(),
                body: t.text@,
                meta: t.meta.deep_view(),
            },
            ResourceContents::Blob(b) => ContentsView {
                is_text: false,
                uri: b.uri@,
                mime_type: b.mime_type.deep_view(),
                body: b.blob@,
                meta: b.meta.deep_view(),
            },
        }
    }
}

/// A text field of an object.
pub open spec fn text_field(t: json::Tree, name: Seq<char>) -> Option<Seq<char>> {
    match json::tree_get(t, name) {
        Some(json::Tree::Str(s)) => Some(s),
        _ => None,
    }
}

fn text_field_of(v: &Json, name: &str) -> (r: Option<String>)
    ensures
        r.deep_view() == text_field(v.tree(), name@),
{
    match v.get(name) {
        None => None,
        Some(f) => match f.as_str() {
            Some(s) => Some(s.to_owned()),
            None => None,
        },
    }
}

/// The start of a message about an entry of a list.
pub open spec fn entry_text(idx: nat, rest: Seq<char>) -> Seq<char> {
    "contents["@ + text::decimal_text(idx) + rest
}

/// An entry of a resource, which is either text or binary, or why it is none.
pub open spec fn entry_of(t: json::Tree, idx: nat) -> Result<ContentsView, Seq<char>> {
    let has_text = json::tree_get(t, "text"@) is Some;
    let has_blob = json::tree_get(t, "blob"@) is Some;
    match text_field(t, "uri"@) {
        None => Err(entry_text(idx, "].uri must be a string"@)),
        Some(uri) => if has_text && has_blob {
            Err(entry_text(idx, "] cannot carry both `text` and `blob`"@))
        } else {
            match text_field(
                t,
                if has_blob {
                    "blob"@
                } else {
                    "text"@
                },
            ) {
                Some(body) => Ok(
                    ContentsView {
                        is_text: !has_blob,
                        uri,
                        mime_type: text_field(t, "mimeType"@),
                        body,
                        meta: json::tree_get(t, "_meta"@),
                    },
                ),
                None => Err(
                    entry_text(
                        idx,
                        if has_blob {
                            "].blob must be a string"@
                        } else {
                            "] must carry either `text` or `blob`"@
                        },
                    ),
                ),
            }
        },
    }
}

/// The entries of a resource, or why the first that is none is none.
pub open spec fn entries_of(s: Seq<json::Tree>) -> Result<Seq<ContentsView>, Seq<char>>
    decreases s.len(),
{
    if s.len() == 0 {
        Ok(seq![])
    } else {
        match entries_of(s.drop_last()) {
            Err(e) => Err(e),
            Ok(v) => match entry_of(s.last(), (s.len() - 1) as nat) {
                Ok(c) => Ok(v.push(c)),
                Err(e) => Err(e),
            },
        }
    }
}

proof fn lemma_entries_fail_early(s: Seq<json::Tree>, n: int)
    requires
        0 <= n <= s.len(),
        entries_of(s.take(n)) is Err,
    ensures
        entries_of(s) == entries_of(s.take(n)),
    decreases s.len() - n,
{
    if n == s.len() {
        assert(s.take(n) =~= s);
    } else {
        assert(s.take(n + 1).drop_last() =~= s.take(n));
        lemma_entries_fail_early(s, n + 1);
    }
}

fn entry_message(idx: usize, rest: &str) -> (r: String)
    ensures
        r@ == entry_text(idx as nat, rest@),
{
    let mut s: String = "contents[".to_owned();
    s.append(decimal(idx as u64).as_str());
    s.append(rest);
    s
}

fn read_entry(v: &Json, idx: usize) -> (r: Result<ResourceContents, String>)
    ensures
        match r {
            Ok(c) => entry_of(v.tree(), idx as nat) == Ok::<ContentsView, Seq<char>>(
                c.deep_view(),
            ),
            Err(e) => entry_of(v.tree(), idx as nat) == Err::<ContentsView, Seq<char>>(e@),
        },
{
    let uri: String = match text_field_of(v, "uri") {
        Some(u) => u,
        None => {
            return Err(entry_message(idx, "].uri must be a string"));
        },
    };
    let mime_type: Option<String> = text_field_of(v, "mimeType");
    let meta: Option<Json> = json::copy_opt(v.get("_meta"));
    let has_text: bool = v.get("text").is_some();
    let has_blob: bool = v.get("blob").is_some();
    if has_text && has_blob {
        return Err(entry_message(idx, "] cannot carry both `text` and `blob`"));
    }
    if has_blob {
        match text_field_of(v, "blob") {
            Some(blob) => Ok(
                ResourceContents::Blob(BlobResourceContents { uri, mime_type, blob, meta }),
            ),
            None => Err(entry_message(idx, "].blob must be a string")),
        }
    } else {
        match text_field_of(v, "text") {
            Some(text) => Ok(
                ResourceContents::Text(ResourceTextContents { uri, mime_type, text, meta }),
            ),
            None => Err(entry_message(idx, "] must carry either `text` or `blob`")),
        }
    }
}

/// What a body is read as, given what parsing it gave: the entries of a
/// resource, or why there are none.
pub open spec fn resource_of(
    parsed: Result<json::Tree, Seq<char>>,
    requested_uri: Seq<char>,
) -> Result<Seq<ContentsView>, DecodeErrorView> {
    match parsed {
        Err(e) => Err(
            bad_shape("resource body for "@ + requested_uri + " is not JSON: "@ + e),
        ),
        Ok(t) => match json::tree_get(t, "contents"@) {
            None => Err(
                bad_shape("resource body for "@ + requested_uri + " is missing `contents`"@),
            ),
            Some(json::Tree::Array(s)) => if s.len() == 0 {
                Err(
                    bad_shape(
                        "`contents` for "@ + requested_uri + " must contain at least one entry"@,
                    ),
                )
            } else {
                match entries_of(s) {
                    Ok(v) => Ok(v),
                    Err(e) => Err(bad_shape(e)),
                }
            },
            Some(_) => Err(bad_shape("`contents` must be an array"@)),
        },
    }
}

/// A parse result over plain values.
pub open spec fn parsed_view(p: Result<Json, String>) -> Result<json::Tree, Seq<char>> {
    match p {
        Ok(v) => Ok(v.tree()),
        Err(e) => Err(e@),
    }
}

/// Whether a read result holds the given parts, with the defaults of a read.
pub open spec fn fresh_read(r: ResourceReadResult, parts: Seq<ContentsView>, ttl_ms: u64) -> bool {
    &&& r.contents.deep_view() == parts
    &&& r.ttl_ms == Some(ttl_ms)
    &&& r.cache_scope == Some(CacheScope::Private)
    &&& r.cache_token is None
}

/// Reads a parsed body as a resource.
pub fn resource_from_parsed(
    parsed: Result<Json, String>,
    requested_uri: &str,
    ttl_ms: u64,
) -> (r: Result<ResourceReadResult, SurfaceDecodeError>)
    ensures
        match resource_of(parsed_view(parsed), requested_uri@) {
            Ok(v) => r matches Ok(x) && fresh_read(x, v, ttl_ms),
            Err(e) => r matches Err(x) && x.deep_view() == e,
        },
{
    let value: Json = match parsed {
        Ok(v) => v,
        Err(e) => {
            let mut s: String = "resource body for ".to_owned();
            s.append(requested_uri);
            s.append(" is not JSON: ");
            s.append(e.as_str());
            return Err(malformed(s));
        },
    };
    let contents: &Json = match value.get("contents") {
        Some(c) => c,
        None => {
            let mut s: String = "resource body for ".to_owned();
            s.append(requested_uri);
            s.append(" is missing `contents`");
            return Err(malformed(s));
        },
    };
    let entries: &Vec<Json> = match contents {
        Json::Array(v) => v,
        _ => {
            return Err(malformed("`contents` must be an array".to_owned()));
        },
    };
    proof {
        json::lemma_elements(entries@);
    }
    if entries.len() == 0 {
        let mut s: String = "`contents` for ".to_owned();
        s.append(requested_uri);
        s.append(" must contain at least one entry");
        return Err(malformed(s));
    }
    let ghost trees = json::elements(entries@);
    let mut out: Vec<ResourceContents> = Vec::new();
    let mut i: usize = 0;
    proof {
        assert(trees.take(0) =~= seq![]);
        assert(out.deep_view() =~= seq![]);
    }
    while i < entries.len()
        invariant
            i <= entries@.len(),
            trees == json::elements(entries@),
            trees.len() == entries@.len(),
            forall|j: int| 0 <= j < entries@.len() ==> #[trigger] trees[j] == entries@[j].tree(),
            entries_of(trees.take(i as int)) == Ok::<Seq<ContentsView>, Seq<char>>(
                out.deep_view(),
            ),
            resource_of(parsed_view(parsed), requested_uri@) == (match entries_of(trees) {
                Ok(v) => Ok::<Seq<ContentsView>, DecodeErrorView>(v),
                Err(e) => Err::<Seq<ContentsView>, DecodeErrorView>(bad_shape(e)),
            }),
        decreases entries.len() - i,
    {
        proof {
            assert(trees.take(i + 1).drop_last() =~= trees.take(i as int));
            assert(trees.take(i + 1).last() == entries@[i as int].tree());
        }
        match read_entry(&entries[i], i) {
            Ok(c) => {
                let ghost before = out.deep_view();
                out.push(c);
                proof {
                    assert(out.deep_view() =~= before.push(c.deep_view()));
                }
            },
            Err(e) => {
                proof {
                    lemma_entries_fail_early(trees, i + 1);
                }
                return Err(malformed(e));
            },
        }
        i += 1;
    }
    proof {
        assert(trees.take(i as int) =~= trees);
    }
    Ok(
        ResourceReadResult {
            contents: out,
            ttl_ms: Some(ttl_ms),
            cache_scope: Some(CacheScope::Private),
            cache_token: None,
        },
    )
}

/// The parts of a resource that a backend's answer holds, or why it holds none.
pub open spec fn resource_of_result(result: ToolCallResult, requested_uri: Seq<char>) -> Result<
    Seq<ContentsView>,
    DecodeErrorView,
> {
    match body_of(result) {
        Err(e) => Err(e),
        Ok(body) => resource_of(outside::json_parsed(body), requested_uri),
    }
}

/// Reads a backend's answer as a resource.
pub fn decode_resource_result(result: &ToolCallResult, requested_uri: &str, ttl_ms: u64) -> (r:
    Result<ResourceReadResult, SurfaceDecodeError>)
    ensures
        match resource_of_result(*result, requested_uri@) {
            Ok(v) => r matches Ok(x) && fresh_read(x, v, ttl_ms),
            Err(e) => r matches Err(x) && x.deep_view() == e,
        },
{
    match text_body(result) {
        Err(e) => Err(e),
        Ok(body) => resource_from_parsed(outside::json_from_str(body), requested_uri, ttl_ms),
    }
}

/// No part of a resource that is read is both text and binary, and each names
/// its resource.
pub proof fn law_entries_are_text_or_binary(s: Seq<json::Tree>, i: int)
    requires
        entries_of(s) is Ok,
        0 <= i < s.len(),
    ensures
        !(json::tree_get(s[i], "text"@) is Some && json::tree_get(s[i], "blob"@) is Some),
        entries_of(s)->Ok_0.len() == s.len(),
        text_field(s[i], "uri"@) == Some(entries_of(s)->Ok_0[i].uri),
    decreases s.len(),
{
    if i < s.len() - 1 {
        law_entries_are_text_or_binary(s.drop_last(), i);
        assert(s.drop_last()[i] == s[i]);
    } else if s.len() > 1 {
        law_entries_are_text_or_binary(s.drop_last(), 0);
    }
}

/// What a message of a prompt holds.
#[derive(Debug)]
pub enum PromptMessageContent {
    Text { text: String },
    Image { data: String, mime_type: String },
    Audio { data: String, mime_type: String },
    ResourceLink { uri: String, name: String },
    Resource { resource: Json },
}

/// A message of a prompt. `content_value` is the content as it was written,
/// with what the kinds above do not name.
#[derive(Debug)]
pub struct PromptMessage {
    pub role: String,
    pub content: PromptMessageContent,
    pub content_value: Json,
    pub meta: Option<Json>,
}

/// A prompt as it was read.
#[derive(Debug)]
pub struct PromptGetResult {
    pub messages: Vec<PromptMessage>,
}

/// What a message holds, over plain values.
pub enum PromptContentView {
    Text { text: Seq<char> },
    Image { data: Seq<char>, mime_type: Seq<char> },
    Audio { data: Seq<char>, mime_type: Seq<char> },
    ResourceLink { uri: Seq<char>, name: Seq<char> },
    Resource { resource: json::Tree },
}

/// A message over plain values.
pub struct PromptMessageView {
    pub role: Seq<char>,
    pub content: PromptContentView,
    pub content_value: json::Tree,
    pub meta: Option<json::Tree>,
}

impl DeepView for PromptMessageContent {
    type V = PromptContentView;

    open spec fn deep_view(&self) -> PromptContentView {
        match self {
            PromptMessageContent::Text { text } => PromptContentView::Text { text: text@ },
            PromptMessageContent::Image { data, mime_type } => PromptContentView::Image {
                data: data@,
                mime_type: mime_type@,
            },
            PromptMessageContent::Audio { data, mime_type } => PromptContentView::Audio {
                data: data@,
                mime_type: mime_type@,
            },
            PromptMessageContent::ResourceLink { uri, name } => PromptContentView::ResourceLink {
                uri: uri@,
                name: name@,
            },
            PromptMessageContent::Resource { resource } => PromptContentView::Resource {
                resource: resource.tree(),
            },
        }
    }
}

impl DeepView for PromptMessage {
    type V = PromptMessageView;

    open spec fn deep_view(&self) -> PromptMessageView {
        PromptMessageView {
            role: self.role@,
            content: self.content.deep_view(),
            content_value: self.content_value.tree(),
            meta: self.meta.deep_view(),
        }
    }
}

/// The content of a message, where it has the fields of its kind.
pub open spec fn content_of(t: json::Tree) -> Option<PromptContentView> {
    let kind = text_field(t, "type"@);
    if kind == Some("text"@) {
        match text_field(t, "text"@) {
            Some(text) => Some(PromptContentView::Text { text }),
            None => None,
        }
    } else if kind == Some("image"@) {
        match (text_field(t, "data"@), text_field(t, "mimeType"@)) {
            (Some(data), Some(mime_type)) => Some(PromptContentView::Image { data, mime_type }),
            _ => None,
        }
    } else if kind == Some("audio"@) {
        match (text_field(t, "data"@), text_field(t, "mimeType"@)) {
            (Some(data), Some(mime_type)) => Some(PromptContentView::Audio { data, mime_type }),
            _ => None,
        }
    } else if kind == Some("resource_link"@) {
        match (text_field(t, "uri"@), text_field(t, "name"@)) {
            (Some(uri), Some(name)) => Some(PromptContentView::ResourceLink { uri, name }),
            _ => None,
        }
    } else if kind == Some("resource"@) {
        match json::tree_get(t, "resource"@) {
            Some(resource) => if embedded_resource(resource) {
                Some(PromptContentView::Resource { resource })
            } else {
                None
            },
            None => None,
        }
    } else {
        None
    }
}

/// Whether a value is an embedded resource: it names itself and carries text or
/// binary.
pub open spec fn embedded_resource(t: json::Tree) -> bool {
    text_field(t, "uri"@) is Some && (text_field(t, "text"@) is Some || text_field(
        t,
        "blob"@,
    ) is Some)
}

/// A message, where it has a role and a content of a known kind.
pub open spec fn message_of(t: json::Tree) -> Option<PromptMessageView> {
    match (text_field(t, "role"@), json::tree_get(t, "content"@)) {
        (Some(role), Some(content_value)) => match content_of(content_value) {
            Some(content) => Some(
                PromptMessageView {
                    role,
                    content,
                    content_value,
                    meta: json::tree_get(t, "_meta"@),
                },
            ),
            None => None,
        },
        _ => None,
    }
}

/// What a body is read as, given what parsing it gave: the messages of a
/// prompt, or why there are none.
pub open spec fn prompt_of(parsed: Result<json::Tree, Seq<char>>) -> Result<
    Seq<PromptMessageView>,
    DecodeErrorView,
> {
    match parsed {
        Err(e) => Err(bad_shape("prompt body is not JSON: "@ + e)),
        Ok(t) => match json::tree_get(t, "messages"@) {
            None => Err(bad_shape("prompt body is missing `messages`"@)),
            Some(json::Tree::Array(s)) => match first_fault(s) {
                Some(i) => Err(bad_shape(wrong_messages(entry_fault(i as nat, s[i])))),
                None => if s.len() == 0 {
                    Err(bad_shape("`messages` must contain at least one entry"@))
                } else {
                    Ok(Seq::new(s.len(), |i: int| message_of(s[i])->0))
                },
            },
            Some(_) => Err(bad_shape(wrong_messages("expected a list"@))),
        },
    }
}

/// The first entry of a list that is no message.
pub open spec fn first_fault(s: Seq<json::Tree>) -> Option<int>
    decreases s.len(),
{
    if s.len() == 0 {
        None
    } else {
        match first_fault(s.drop_last()) {
            Some(i) => Some(i),
            None => if message_of(s.last()) is Some {
                None
            } else {
                Some(s.len() - 1)
            },
        }
    }
}

/// What is wrong with an entry that is no message.
pub open spec fn entry_fault(i: nat, t: json::Tree) -> Seq<char> {
    "entry "@ + text::decimal_text(i) + (if text_field(t, "role"@) is None {
        ": missing field `role`"@
    } else if json::tree_get(t, "content"@) is None {
        ": missing field `content`"@
    } else {
        ": `content` is no content block"@
    })
}

/// The reason for messages of another shape.
pub open spec fn wrong_messages(detail: Seq<char>) -> Seq<char> {
    "prompt `messages` does not match the spec content-block shape: "@ + detail
}

fn wrong_messages_error(detail: &str) -> (r: SurfaceDecodeError)
    ensures
        r.deep_view() == bad_shape(wrong_messages(detail@)),
{
    let mut s: String =
        "prompt `messages` does not match the spec content-block shape: ".to_owned();
    s.append(detail);
    malformed(s)
}

fn entry_error(i: usize, v: &Json) -> (r: SurfaceDecodeError)
    ensures
        r.deep_view() == bad_shape(wrong_messages(entry_fault(i as nat, v.tree()))),
{
    let mut s: String = "entry ".to_owned();
    s.append(text::decimal(i as u64).as_str());
    if text_field_of(v, "role").is_none() {
        s.append(": missing field `role`");
    } else if v.get("content").is_none() {
        s.append(": missing field `content`");
    } else {
        s.append(": `content` is no content block");
    }
    wrong_messages_error(s.as_str())
}

proof fn lemma_first_fault(s: Seq<json::Tree>, i: int)
    requires
        0 <= i < s.len(),
        first_fault(s.take(i)) is None,
        message_of(s[i]) is None,
    ensures
        first_fault(s) == Some(i),
    decreases s.len(),
{
    if i < s.len() - 1 {
        assert(s.drop_last().take(i) =~= s.take(i));
        lemma_first_fault(s.drop_last(), i);
    } else {
        assert(s.take(i) =~= s.drop_last());
    }
}

fn read_content(v: &Json) -> (r: Option<PromptMessageContent>)
    ensures
        r.deep_view() == content_of(v.tree()),
{
    let kind: String = match text_field_of(v, "type") {
        Some(k) => k,
        None => {
            return None;
        },
    };
    if str_eq(kind.as_str(), "text") {
        match text_field_of(v, "text") {
            Some(text) => Some(PromptMessageContent::Text { text }),
            None => None,
        }
    } else if str_eq(kind.as_str(), "image") {
        match (text_field_of(v, "data"), text_field_of(v, "mimeType")) {
            (Some(data), Some(mime_type)) => Some(
                PromptMessageContent::Image { data, mime_type },
            ),
            _ => None,
        }
    } else if str_eq(kind.as_str(), "audio") {
        match (text_field_of(v, "data"), text_field_of(v, "mimeType")) {
            (Some(data), Some(mime_type)) => Some(
                PromptMessageContent::Audio { data, mime_type },
            ),
            _ => None,
        }
    } else if str_eq(kind.as_str(), "resource_link") {
        match (text_field_of(v, "uri"), text_field_of(v, "name")) {
            (Some(uri), Some(name)) => Some(PromptMessageContent::ResourceLink { uri, name }),
            _ => None,
        }
    } else if str_eq(kind.as_str(), "resource") {
        match v.get("resource") {
            Some(resource) => {
                if text_field_of(resource, "uri").is_some() && (text_field_of(
                    resource,
                    "text",
                ).is_some() || text_field_of(resource, "blob").is_some()) {
                    Some(PromptMessageContent::Resource { resource: resource.copy() })
                } else {
                    None
                }
            },
            None => None,
        }
    } else {
        None
    }
}

fn read_message(v: &Json) -> (r: Option<PromptMessage>)
    ensures
        r.deep_view() == message_of(v.tree()),
{
    match (text_field_of(v, "role"), v.get("content")) {
        (Some(role), Some(value)) => match read_content(value) {
            Some(content) => Some(
                PromptMessage {
                    role,
                    content,
                    content_value: value.copy(),
                    meta: json::copy_opt(v.get("_meta")),
                },
            ),
            None => None,
        },
        _ => None,
    }
}

/// Reads a parsed body as a prompt.
pub fn prompt_from_parsed(parsed: Result<Json, String>) -> (r: Result<
    PromptGetResult,
    SurfaceDecodeError,
>)
    ensures
        match prompt_of(parsed_view(parsed)) {
            Ok(v) => r matches Ok(x) && x.messages.deep_view() == v,
            Err(e) => r matches Err(x) && x.deep_view() == e,
        },
{
    let value: Json = match parsed {
        Ok(v) => v,
        Err(e) => {
            let mut s: String = "prompt body is not JSON: ".to_owned();
            s.append(e.as_str());
            return Err(malformed(s));
        },
    };
    let messages: &Json = match value.get("messages") {
        Some(m) => m,
        None => {
            return Err(malformed("prompt body is missing `messages`".to_owned()));
        },
    };
    let entries: &Vec<Json> = match messages {
        Json::Array(v) => v,
        _ => {
            return Err(wrong_messages_error("expected a list"));
        },
    };
    proof {
        json::lemma_elements(entries@);
        assert(json::elements(entries@).take(0) =~= seq![]);
    }
    let ghost trees = json::elements(entries@);
    let mut out: Vec<PromptMessage> = Vec::new();
    let mut i: usize = 0;
    while i < entries.len()
        invariant
            i <= entries@.len(),
            trees == json::elements(entries@),
            trees.len() == entries@.len(),
            forall|j: int| 0 <= j < entries@.len() ==> #[trigger] trees[j] == entries@[j].tree(),
            json::tree_get(parsed_view(parsed)->Ok_0, "messages"@) == Some(
                json::Tree::Array(trees),
            ),
            parsed_view(parsed) is Ok,
            out@.len() == i,
            first_fault(trees.take(i as int)) is None,
            forall|j: int|
                0 <= j < i ==> message_of(#[trigger] trees[j]) == Some(out@[j].deep_view()),
        decreases entries.len() - i,
    {
        proof {
            assert(trees.take(i + 1).drop_last() =~= trees.take(i as int));
        }
        match read_message(&entries[i]) {
            Some(m) => {
                out.push(m);
            },
            None => {
                proof {
                    lemma_first_fault(trees, i as int);
                }
                return Err(entry_error(i, &entries[i]));
            },
        }
        i += 1;
    }
    proof {
        assert(trees.take(i as int) =~= trees);
    }
    if out.len() == 0 {
        return Err(malformed("`messages` must contain at least one entry".to_owned()));
    }
    proof {
        assert(out.deep_view() =~= Seq::new(trees.len(), |i: int| message_of(trees[i])->0));
    }
    Ok(PromptGetResult { messages: out })
}

/// The messages of a prompt that a backend's answer holds, or why it holds none.
pub open spec fn prompt_of_result(result: ToolCallResult) -> Result<
    Seq<PromptMessageView>,
    DecodeErrorView,
> {
    match body_of(result) {
        Err(e) => Err(e),
        Ok(body) => prompt_of(outside::json_parsed(body)),
    }
}

/// Reads a backend's answer as a prompt.
pub fn decode_prompt_result(result: &ToolCallResult) -> (r: Result<
    PromptGetResult,
    SurfaceDecodeError,
>)
    ensures
        match prompt_of_result(*result) {
            Ok(v) => r matches Ok(x) && x.messages.deep_view() == v,
            Err(e) => r matches Err(x) && x.deep_view() == e,
        },
{
    match text_body(result) {
        Err(e) => Err(e),
        Ok(body) => prompt_from_parsed(outside::json_from_str(body)),
    }
}

/// The JSON of a part of a resource.
pub open spec fn contents_tree(c: ContentsView) -> json::Tree {
    let base = Map::<Seq<char>, json::Tree>::empty().insert("uri"@, json::Tree::Str(c.uri)).insert(
        if c.is_text {
            "text"@
        } else {
            "blob"@
        },
        json::Tree::Str(c.body),
    );
    json::Tree::Object(
        protocol::insert_some(
            protocol::insert_some(base, "mimeType"@, opt_text(c.mime_type)),
            "_meta"@,
            c.meta,
        ),
    )
}

/// A text as JSON, where there is one.
pub open spec fn opt_text(t: Option<Seq<char>>) -> Option<json::Tree> {
    match t {
        Some(s) => Some(json::Tree::Str(s)),
        None => None,
    }
}

fn opt_text_json(t: &Option<String>) -> (r: Option<Json>)
    ensures
        r.deep_view() == opt_text(t.deep_view()),
{
    match t {
        Some(s) => Some(Json::text(s.as_str())),
        None => None,
    }
}

impl ResourceContents {
    /// The JSON of the part.
    pub fn to_json(&self) -> (r: Json)
        ensures
            r.tree() == contents_tree(self.deep_view()),
    {
        match self {
            ResourceContents::Text(t) => protocol::with_some(
                protocol::with_some(
                    Json::object().with("uri", Json::text(t.uri.as_str())).with(
                        "text",
                        Json::text(t.text.as_str()),
                    ),
                    "mimeType",
                    opt_text_json(&t.mime_type),
                ),
                "_meta",
                json::copy_opt(t.meta.as_ref()),
            ),
            ResourceContents::Blob(b) => protocol::with_some(
                protocol::with_some(
                    Json::object().with("uri", Json::text(b.uri.as_str())).with(
                        "blob",
                        Json::text(b.blob.as_str()),
                    ),
                    "mimeType",
                    opt_text_json(&b.mime_type),
                ),
                "_meta",
                json::copy_opt(b.meta.as_ref()),
            ),
        }
    }
}

/// The word for who may read a cached answer.
pub open spec fn scope_text(scope: CacheScope) -> Seq<char> {
    match scope {
        CacheScope::Private => "private"@,
        CacheScope::Public => "public"@,
    }
}

/// The JSON of a resource, from its parts.
pub open spec fn read_tree(
    parts: Seq<ContentsView>,
    ttl_ms: Option<u64>,
    cache_scope: Option<CacheScope>,
    cache_token: Option<Seq<char>>,
) -> json::Tree {
    let base = Map::<Seq<char>, json::Tree>::empty().insert(
        "contents"@,
        json::Tree::Array(Seq::new(parts.len(), |i: int| contents_tree(parts[i]))),
    );
    json::Tree::Object(
        protocol::insert_some(
            protocol::insert_some(
                protocol::insert_some(
                    base,
                    "ttlMs"@,
                    match ttl_ms {
                        Some(n) => Some(json::Tree::Number(text::decimal_text(n as nat))),
                        None => None,
                    },
                ),
                "cacheScope"@,
                match cache_scope {
                    Some(s) => Some(json::Tree::Str(scope_text(s))),
                    None => None,
                },
            ),
            "cacheToken"@,
            opt_text(cache_token),
        ),
    )
}

impl ResourceReadResult {
    /// The JSON of the resource.
    pub open spec fn tree(self) -> json::Tree {
        read_tree(
            self.contents.deep_view(),
            self.ttl_ms,
            self.cache_scope,
            self.cache_token.deep_view(),
        )
    }

    /// The JSON of the resource.
    pub fn to_json(&self) -> (r: Json)
        ensures
            r.tree() == self.tree(),
    {
        let mut parts: Vec<Json> = Vec::new();
        let mut i: usize = 0;
        while i < self.contents.len()
            invariant
                i <= self.contents@.len(),
                parts@.len() == i,
                forall|j: int|
                    0 <= j < i ==> (#[trigger] parts@[j]).tree() == contents_tree(
                        self.contents@[j].deep_view(),
                    ),
            decreases self.contents.len() - i,
        {
            parts.push(self.contents[i].to_json());
            i += 1;
        }
        proof {
            json::lemma_elements(parts@);
            let v = self.contents.deep_view();
            assert(json::elements(parts@) =~= Seq::new(v.len(), |i: int| contents_tree(v[i])));
        }
        let ttl: Option<Json> = match self.ttl_ms {
            Some(n) => Some(Json::count(n)),
            None => None,
        };
        let scope: Option<Json> = match self.cache_scope {
            Some(CacheScope::Private) => Some(Json::text("private")),
            Some(CacheScope::Public) => Some(Json::text("public")),
            None => None,
        };
        protocol::with_some(
            protocol::with_some(
                protocol::with_some(
                    Json::object().with("contents", Json::Array(parts)),
                    "ttlMs",
                    ttl,
                ),
                "cacheScope",
                scope,
            ),
            "cacheToken",
            opt_text_json(&self.cache_token),
        )
    }
}

/// The JSON of a message.
pub open spec fn message_tree(m: PromptMessageView) -> json::Tree {
    json::Tree::Object(
        protocol::insert_some(
            Map::<Seq<char>, json::Tree>::empty().insert(
                "role"@,
                json::Tree::Str(m.role),
            ).insert("content"@, m.content_value),
            "_meta"@,
            m.meta,
        ),
    )
}

/// The JSON of a prompt.
pub open spec fn prompt_tree(messages: Seq<PromptMessageView>) -> json::Tree {
    json::object_of(
        seq![
            (
                "messages"@,
                json::Tree::Array(Seq::new(messages.len(), |i: int| message_tree(messages[i]))),
            ),
        ],
    )
}

impl PromptGetResult {
    /// The JSON of the prompt.
    pub fn to_json(&self) -> (r: Json)
        ensures
            r.tree() == prompt_tree(self.messages.deep_view()),
    {
        let mut parts: Vec<Json> = Vec::new();
        let mut i: usize = 0;
        while i < self.messages.len()
            invariant
                i <= self.messages@.len(),
                parts@.len() == i,
                forall|j: int|
                    0 <= j < i ==> (#[trigger] parts@[j]).tree() == message_tree(
                        self.messages@[j].deep_view(),
                    ),
            decreases self.messages.len() - i,
        {
            let m: &PromptMessage = &self.messages[i];
            parts.push(
                protocol::with_some(
                    Json::object().with("role", Json::text(m.role.as_str())).with(
                        "content",
                        m.content_value.copy(),
                    ),
                    "_meta",
                    json::copy_opt(m.meta.as_ref()),
                ),
            );
            i += 1;
        }
        proof {
            reveal_with_fuel(json::map_of, 2);
            json::lemma_elements(parts@);
            let v = self.messages.deep_view();
            assert(json::elements(parts@) =~= Seq::new(v.len(), |i: int| message_tree(v[i])));
        }
        Json::object().with("messages", Json::Array(parts))
    }
}

proof fn lemma_field_names()
    ensures
        "uri"@.len() == 3,
        "text"@.len() == 4 && "text"@[0] == 't' && "text"@[1] == 'e',
        "blob"@.len() == 4 && "blob"@[0] == 'b',
        "mimeType"@.len() == 8 && "mimeType"@[0] == 'm',
        "_meta"@.len() == 5 && "_meta"@[0] == '_',
        "contents"@.len() == 8 && "contents"@[0] == 'c',
        "ttlMs"@.len() == 5 && "ttlMs"@[0] == 't',
        "cacheScope"@.len() == 10 && "cacheScope"@[5] == 'S',
        "cacheToken"@.len() == 10 && "cacheToken"@[5] == 'T',
        "role"@.len() == 4 && "role"@[0] == 'r',
        "content"@.len() == 7,
        "type"@.len() == 4 && "type"@[1] == 'y',
        "image"@.len() == 5 && "image"@[0] == 'i',
        "audio"@.len() == 5 && "audio"@[0] == 'a',
        "resource_link"@.len() == 13,
        "resource"@.len() == 8,
        "data"@.len() == 4,
        "name"@.len() == 4,
{
    reveal_strlit("uri");
    reveal_strlit("text");
    reveal_strlit("blob");
    reveal_strlit("mimeType");
    reveal_strlit("_meta");
    reveal_strlit("contents");
    reveal_strlit("ttlMs");
    reveal_strlit("cacheScope");
    reveal_strlit("cacheToken");
    reveal_strlit("role");
    reveal_strlit("content");
    reveal_strlit("type");
    reveal_strlit("image");
    reveal_strlit("audio");
    reveal_strlit("resource_link");
    reveal_strlit("resource");
    reveal_strlit("data");
    reveal_strlit("name");
}

/// A part of a resource is written with its address, its kind and all that is known
/// of it, and is read back as it was.
pub proof fn law_parts_are_read_as_they_are_written(c: ContentsView, idx: nat)
    ensures
        json::tree_get(contents_tree(c), "uri"@) == Some(json::Tree::Str(c.uri)),
        json::tree_get(contents_tree(c), "text"@) == (if c.is_text {
            Some(json::Tree::Str(c.body))
        } else {
            None
        }),
        json::tree_get(contents_tree(c), "blob"@) == (if c.is_text {
            None
        } else {
            Some(json::Tree::Str(c.body))
        }),
        json::tree_get(contents_tree(c), "_meta"@) == c.meta,
        text_field(contents_tree(c), "mimeType"@) == c.mime_type,
        entry_of(contents_tree(c), idx) == Ok::<ContentsView, Seq<char>>(c),
{
    lemma_field_names();
}

/// A resource is read back as it was written: its parts, all of them and in order.
pub proof fn law_resources_are_read_as_they_are_written(
    parts: Seq<ContentsView>,
    ttl_ms: Option<u64>,
    scope: Option<CacheScope>,
    token: Option<Seq<char>>,
    uri: Seq<char>,
)
    requires
        parts.len() > 0,
    ensures
        resource_of(Ok(read_tree(parts, ttl_ms, scope, token)), uri) == Ok::<
            Seq<ContentsView>,
            DecodeErrorView,
        >(parts),
        json::tree_get(read_tree(parts, ttl_ms, scope, token), "ttlMs"@) == (match ttl_ms {
            Some(n) => Some(json::Tree::Number(text::decimal_text(n as nat))),
            None => None,
        }),
        json::tree_get(read_tree(parts, ttl_ms, scope, token), "cacheScope"@) == (match scope {
            Some(CacheScope::Private) => Some(json::Tree::Str("private"@)),
            Some(CacheScope::Public) => Some(json::Tree::Str("public"@)),
            None => None,
        }),
        text_field(read_tree(parts, ttl_ms, scope, token), "cacheToken"@) == token,
{
    lemma_field_names();
    let s = Seq::new(parts.len(), |i: int| contents_tree(parts[i]));
    lemma_entries_read_back(parts, s);
}

proof fn lemma_entries_read_back(parts: Seq<ContentsView>, s: Seq<json::Tree>)
    requires
        s.len() == parts.len(),
        forall|i: int| 0 <= i < s.len() ==> #[trigger] s[i] == contents_tree(parts[i]),
    ensures
        entries_of(s) == Ok::<Seq<ContentsView>, Seq<char>>(parts),
    decreases s.len(),
{
    if s.len() > 0 {
        let init = s.drop_last();
        let rest = parts.drop_last();
        assert forall|i: int| 0 <= i < init.len() implies #[trigger] init[i] == contents_tree(
            rest[i],
        ) by {
            assert(init[i] == s[i]);
        }
        lemma_entries_read_back(rest, init);
        assert(s.last() == contents_tree(parts.last()));
        law_parts_are_read_as_they_are_written(parts.last(), (s.len() - 1) as nat);
        assert(rest.push(parts.last()) =~= parts);
    } else {
        assert(parts =~= seq![]);
    }
}

/// A message is written with its role, its content and what else is known of it, and
/// is read back as it was.
pub proof fn law_messages_are_read_as_they_are_written(m: PromptMessageView)
    requires
        content_of(m.content_value) == Some(m.content),
    ensures
        json::tree_get(message_tree(m), "role"@) == Some(json::Tree::Str(m.role)),
        json::tree_get(message_tree(m), "content"@) == Some(m.content_value),
        json::tree_get(message_tree(m), "_meta"@) == m.meta,
        message_of(message_tree(m)) == Some(m),
{
    lemma_field_names();
}

/// A prompt is read back as it was written: its messages, all of them and in order.
pub proof fn law_prompts_are_read_as_they_are_written(messages: Seq<PromptMessageView>)
    requires
        messages.len() > 0,
        forall|i: int|
            0 <= i < messages.len() ==> content_of((#[trigger] messages[i]).content_value) == Some(
                messages[i].content,
            ),
    ensures
        prompt_of(Ok(prompt_tree(messages))) == Ok::<Seq<PromptMessageView>, DecodeErrorView>(
            messages,
        ),
{
    reveal_with_fuel(json::map_of, 2);
    let s = Seq::new(messages.len(), |i: int| message_tree(messages[i]));
    assert forall|i: int| 0 <= i < s.len() implies message_of(#[trigger] s[i]) == Some(
        messages[i],
    ) by {
        law_messages_are_read_as_they_are_written(messages[i]);
    }
    lemma_no_fault(s);
    assert(Seq::new(s.len(), |i: int| message_of(s[i])->0) =~= messages);
}

proof fn lemma_no_fault(s: Seq<json::Tree>)
    requires
        forall|i: int| 0 <= i < s.len() ==> message_of(#[trigger] s[i]) is Some,
    ensures
        first_fault(s) is None,
    decreases s.len(),
{
    if s.len() > 0 {
        let init = s.drop_last();
        assert forall|i: int| 0 <= i < init.len() implies message_of(#[trigger] init[i]) is Some by {
            assert(init[i] == s[i]);
        }
        lemma_no_fault(init);
        assert(s.last() == s[s.len() - 1]);
    }
}

/// A content block is of the kind that it names, with each of its fields read from its
/// own place; a block of another kind, or without a field of its kind, is none.
pub proof fn law_content_blocks_are_read_by_kind(t: json::Tree)
    ensures
        match content_of(t) {
            Some(PromptContentView::Text { text }) => text_field(t, "type"@) == Some("text"@)
                && text_field(t, "text"@) == Some(text),
            Some(PromptContentView::Image { data, mime_type }) => text_field(t, "type"@) == Some(
                "image"@,
            ) && text_field(t, "data"@) == Some(data) && text_field(t, "mimeType"@) == Some(
                mime_type,
            ),
            Some(PromptContentView::Audio { data, mime_type }) => text_field(t, "type"@) == Some(
                "audio"@,
            ) && text_field(t, "data"@) == Some(data) && text_field(t, "mimeType"@) == Some(
                mime_type,
            ),
            Some(PromptContentView::ResourceLink { uri, name }) => text_field(t, "type"@) == Some(
                "resource_link"@,
            ) && text_field(t, "uri"@) == Some(uri) && text_field(t, "name"@) == Some(name),
            Some(PromptContentView::Resource { resource }) => text_field(t, "type"@) == Some(
                "resource"@,
            ) && json::tree_get(t, "resource"@) == Some(resource) && text_field(
                resource,
                "uri"@,
            ) is Some,
            None => {
                &&& text_field(t, "type"@) == Some("text"@) ==> text_field(t, "text"@) is None
                &&& text_field(t, "type"@) == Some("image"@) || text_field(t, "type"@) == Some(
                    "audio"@,
                ) ==> text_field(t, "data"@) is None || text_field(t, "mimeType"@) is None
                &&& text_field(t, "type"@) == Some("resource_link"@) ==> text_field(t, "uri"@)
                    is None || text_field(t, "name"@) is None
                &&& text_field(t, "type"@) == Some("resource"@) ==> (json::tree_get(
                    t,
                    "resource"@,
                ) matches Some(r) ==> text_field(r, "uri"@) is None || text_field(r, "text"@)
                    is None && text_field(r, "blob"@) is None)
            },
        },
{
    lemma_field_names();
}

/// What a backend's answer is read from is its first block of text, whatever stands
/// around it; an answer that says that it failed is never read as anything else.
pub proof fn law_answers_are_read_from_their_first_text(result: ToolCallResult, i: int)
    requires
        0 <= i < result.content@.len(),
        result.content@[i] is Text,
        forall|j: int| 0 <= j < i ==> !((#[trigger] result.content@[j]) is Text),
    ensures
        !result.is_error ==> body_of(result) == Ok::<Seq<char>, DecodeErrorView>(
            result.content@[i]->text@,
        ),
        result.is_error ==> body_of(result) == Err::<Seq<char>, DecodeErrorView>(
            DecodeErrorView::BackendError { message: result.content@[i]->text@ },
        ),
{
    lemma_first_text(result.content@, i);
}

proof fn lemma_first_text(s: Seq<ToolContent>, i: int)
    requires
        0 <= i < s.len(),
        s[i] is Text,
        forall|j: int| 0 <= j < i ==> !((#[trigger] s[j]) is Text),
    ensures
        first_text(s) == Some(s[i]->text@),
    decreases s.len(),
{
    if i > 0 {
        let rest = s.drop_first();
        assert(rest[i - 1] == s[i]);
        assert forall|j: int| 0 <= j < i - 1 implies !((#[trigger] rest[j]) is Text) by {
            assert(rest[j] == s[j + 1]);
        }
        lemma_first_text(rest, i - 1);
        assert(!(s[0] is Text));
    }
}

/// An answer without any text is empty, and says nothing of itself where it failed.
pub proof fn law_answers_without_text_are_empty(result: ToolCallResult)
    requires
        forall|j: int| 0 <= j < result.content@.len() ==> !((#[trigger] result.content@[j]) is Text),
    ensures
        !result.is_error ==> body_of(result) == Err::<Seq<char>, DecodeErrorView>(
            DecodeErrorView::EmptyResponse,
        ),
        result.is_error ==> (body_of(result) matches Err(e) && e is BackendError),
{
    lemma_no_text(result.content@);
}

proof fn lemma_no_text(s: Seq<ToolContent>)
    requires
        forall|j: int| 0 <= j < s.len() ==> !((#[trigger] s[j]) is Text),
    ensures
        first_text(s) is None,
    decreases s.len(),
{
    if s.len() > 0 {
        let rest = s.drop_first();
        assert forall|j: int| 0 <= j < rest.len() implies !((#[trigger] rest[j]) is Text) by {
            assert(rest[j] == s[j + 1]);
        }
        lemma_no_text(rest);
        assert(!(s[0] is Text));
    }
}

/// A resource is read exactly where its body is JSON with a list of parts that is not
/// empty and holds nothing but parts.
pub proof fn law_only_lists_of_parts_are_resources(
    parsed: Result<json::Tree, Seq<char>>,
    uri: Seq<char>,
)
    ensures
        resource_of(parsed, uri) is Ok <==> (parsed matches Ok(t) && (json::tree_get(
            t,
            "contents"@,
        ) matches Some(json::Tree::Array(s)) && s.len() > 0 && entries_of(s) is Ok)),
        resource_of(parsed, uri) matches Err(e) ==> e is MalformedResponse,
{
}

/// What a read made is fresh: it lives as long as it was asked to, for its reader
/// alone.
pub proof fn law_reads_are_private(
    result: ToolCallResult,
    uri: &str,
    ttl_ms: u64,
    r: Result<ResourceReadResult, SurfaceDecodeError>,
)
    requires
        call_ensures(decode_resource_result, (&result, uri, ttl_ms), r),
    ensures
        r matches Ok(x) ==> x.ttl_ms == Some(ttl_ms) && x.cache_scope == Some(CacheScope::Private)
            && x.cache_token is None,
{
}

/// The kinds of backend calls are named apart.
pub proof fn law_surfaces_are_named_apart(a: InvocationSurface, b: InvocationSurface)
    ensures
        surface_text(a) == surface_text(b) <==> a == b,
        surface_text(InvocationSurface::ResourceTemplate) == surface_text(
            InvocationSurface::Resource,
        ) + "_template"@,
{
    reveal_strlit("tool");
    reveal_strlit("prompt");
    reveal_strlit("resource");
    reveal_strlit("resource_template");
    reveal_strlit("completion");
    reveal_strlit("_template");
    assert("resource"@ + "_template"@ =~= "resource_template"@);
    assert("tool"@.len() == 4 && "prompt"@.len() == 6 && "resource"@.len() == 8
        && "resource_template"@.len() == 17 && "completion"@.len() == 10);
}

/// A body is read as a prompt exactly where it is JSON with a list of messages that is
/// not empty and in which every entry is a message, and then every message is read, in
/// order.
pub proof fn law_prompts_are_lists_of_messages(t: json::Tree, e: Seq<char>)
    ensures
        prompt_of(Err(e)) is Err,
        prompt_of(Ok(t)) is Ok <==> (json::tree_get(t, "messages"@) matches Some(
            json::Tree::Array(s),
        ) && s.len() > 0 && forall|i: int| 0 <= i < s.len() ==> message_of(#[trigger] s[i]) is Some),
        prompt_of(Ok(t)) matches Ok(m) ==> (json::tree_get(t, "messages"@) matches Some(
            json::Tree::Array(s),
        ) && m.len() == s.len() && forall|i: int|
            0 <= i < s.len() ==> message_of(#[trigger] s[i]) == Some(m[i])),
{
    if let Some(json::Tree::Array(s)) = json::tree_get(t, "messages"@) {
        lemma_faults(s);
    }
}

proof fn lemma_faults(s: Seq<json::Tree>)
    ensures
        first_fault(s) is None <==> forall|i: int|
            0 <= i < s.len() ==> message_of(#[trigger] s[i]) is Some,
        first_fault(s) matches Some(i) ==> 0 <= i < s.len() && message_of(s[i]) is None,
    decreases s.len(),
{
    if s.len() > 0 {
        let init = s.drop_last();
        lemma_faults(init);
        if first_fault(s) is None {
            assert forall|i: int| 0 <= i < s.len() implies message_of(#[trigger] s[i]) is Some by {
                if i < init.len() {
                    assert(init[i] == s[i]);
                }
            }
        } else if first_fault(init) is Some {
            let i = first_fault(init)->0;
            assert(init[i] == s[i]);
        }
    }
}

/// A prompt that a backend gives is refused where the backend says that it failed, or
/// says nothing, and what could not be read is told with why.
pub proof fn law_failed_answers_are_no_prompts(
    result: ToolCallResult,
    r: Result<PromptGetResult, SurfaceDecodeError>,
    e: SurfaceDecodeError,
    told: String,
)
    requires
        call_ensures(decode_prompt_result, (&result,), r),
        call_ensures(SurfaceDecodeError::message, (&e,), told),
    ensures
        result.is_error ==> (r matches Err(x) && x.deep_view() is BackendError),
        !result.is_error && result.content@.len() == 0 ==> (r matches Err(x) && x.deep_view()
            is EmptyResponse),
        e.deep_view() matches DecodeErrorView::BackendError { message } ==> text::ends_with(
            told@,
            message,
        ),
        e.deep_view() matches DecodeErrorView::MalformedResponse { reason } ==> text::ends_with(
            told@,
            reason,
        ),
{
    match e.deep_view() {
        DecodeErrorView::BackendError { message } => {
            text::lemma_stands("backend returned an error response: "@, message, seq![]);
        },
        DecodeErrorView::MalformedResponse { reason } => {
            text::lemma_stands(
                "backend response is not a valid surface envelope: "@,
                reason,
                seq![],
            );
        },
        DecodeErrorView::EmptyResponse => {},
    }
}

} // verus!
