//! Plain data types shared by the chat subsystem: request/response shapes,
//! context layers, tables and attachments, and their spec-level views.

use vstd::prelude::*;

verus! {

/// Spec-level image of one layer of business context: the six optional
/// classification fields, each as an optional character sequence.
pub ghost struct ContextView {
    pub user_role: Option<Seq<char>>,
    pub business_stage: Option<Seq<char>>,
    pub goal: Option<Seq<char>>,
    pub urgency: Option<Seq<char>>,
    pub region: Option<Seq<char>>,
    pub business_niche: Option<Seq<char>>,
}

/// The view of an optional string: the character sequence, if present.
pub open spec fn opt_view(o: Option<String>) -> Option<Seq<char>> {
    match o {
        Some(s) => Some(s@),
        None => None,
    }
}

/// The context layer that sets no field at all.
pub open spec fn empty_context() -> ContextView {
    ContextView {
        user_role: None,
        business_stage: None,
        goal: None,
        urgency: None,
        region: None,
        business_niche: None,
    }
}

/// Persisted per-conversation business context: six independently optional
/// classification fields.
pub struct ConversationContext {
    pub user_role: Option<String>,
    pub business_stage: Option<String>,
    pub goal: Option<String>,
    pub urgency: Option<String>,
    pub region: Option<String>,
    pub business_niche: Option<String>,
}

impl View for ConversationContext {
    type V = ContextView;

    open spec fn view(&self) -> ContextView {
        ContextView {
            user_role: opt_view(self.user_role),
            business_stage: opt_view(self.business_stage),
            goal: opt_view(self.goal),
            urgency: opt_view(self.urgency),
            region: opt_view(self.region),
            business_niche: opt_view(self.business_niche),
        }
    }
}

impl Clone for ConversationContext {
    fn clone(&self) -> (r: Self)
        ensures
            r == *self,
    {
        ConversationContext {
            user_role: clone_opt_string(&self.user_role),
            business_stage: clone_opt_string(&self.business_stage),
            goal: clone_opt_string(&self.goal),
            urgency: clone_opt_string(&self.urgency),
            region: clone_opt_string(&self.region),
            business_niche: clone_opt_string(&self.business_niche),
        }
    }
}

/// Transient per-message overrides of the same six fields; never stored as
/// its own entity.
pub struct ContextFilters {
    pub user_role: Option<String>,
    pub business_stage: Option<String>,
    pub goal: Option<String>,
    pub urgency: Option<String>,
    pub region: Option<String>,
    pub business_niche: Option<String>,
}

impl View for ContextFilters {
    type V = ContextView;

    open spec fn view(&self) -> ContextView {
        ContextView {
            user_role: opt_view(self.user_role),
            business_stage: opt_view(self.business_stage),
            goal: opt_view(self.goal),
            urgency: opt_view(self.urgency),
            region: opt_view(self.region),
            business_niche: opt_view(self.business_niche),
        }
    }
}

impl Clone for ContextFilters {
    fn clone(&self) -> (r: Self)
        ensures
            r == *self,
    {
        ContextFilters {
            user_role: clone_opt_string(&self.user_role),
            business_stage: clone_opt_string(&self.business_stage),
            goal: clone_opt_string(&self.goal),
            urgency: clone_opt_string(&self.urgency),
            region: clone_opt_string(&self.region),
            business_niche: clone_opt_string(&self.business_niche),
        }
    }
}

/// Clones an optional string, keeping its value.
pub fn clone_opt_string(o: &Option<String>) -> (r: Option<String>)
    ensures
        r == *o,
{
    match o {
        Some(s) => Some(s.clone()),
        None => None,
    }
}

/// Spec-level image of a table directive: header cells and rows of cells.
pub ghost struct TableView {
    pub headers: Seq<Seq<char>>,
    pub rows: Seq<Seq<Seq<char>>>,
}

/// A structured table recovered from advisor output or supplied by the
/// caller: header cells and rows of string cells.
pub struct TableSpec {
    pub headers: Vec<String>,
    pub rows: Vec<Vec<String>>,
}

impl View for TableSpec {
    type V = TableView;

    open spec fn view(&self) -> TableView {
        TableView {
            headers: self.headers@.map_values(|h: String| h@),
            rows: self.rows@.map_values(|r: Vec<String>| r@.map_values(|c: String| c@)),
        }
    }
}

/// Spec-level image of one conversation summary row.
pub ghost struct SummaryView {
    pub id: Seq<char>,
    pub user_id: Seq<char>,
    pub title: Option<Seq<char>>,
    pub created_at: Seq<char>,
    pub context: Option<ContextView>,
}

/// One listed conversation, joined with its persisted context if present.
pub struct ConversationSummary {
    pub id: String,
    pub user_id: String,
    pub title: Option<String>,
    pub created_at: String,
    pub context: Option<ConversationContext>,
}

impl View for ConversationSummary {
    type V = SummaryView;

    open spec fn view(&self) -> SummaryView {
        SummaryView {
            id: self.id@,
            user_id: self.user_id@,
            title: opt_view(self.title),
            created_at: self.created_at@,
            context: match self.context {
                Some(c) => Some(c@),
                None => None,
            },
        }
    }
}

/// Spec-level image of one history record.
pub ghost struct MessageRecordView {
    pub id: Seq<char>,
    pub role: Seq<char>,
    pub content: Seq<char>,
    pub timestamp: Seq<char>,
}

/// One message as returned in a conversation history.
pub struct MessageRecord {
    pub id: String,
    pub role: String,
    pub content: String,
    pub timestamp: String,
}

impl View for MessageRecord {
    type V = MessageRecordView;

    open spec fn view(&self) -> MessageRecordView {
        MessageRecordView {
            id: self.id@,
            role: self.role@,
            content: self.content@,
            timestamp: self.timestamp@,
        }
    }
}

/// Spec-level image of one produced attachment.
pub ghost struct FileAttachmentView {
    pub id: Option<Seq<char>>,
    pub filename: Seq<char>,
    pub mime: Seq<char>,
    pub size: nat,
    pub content_base64: Option<Seq<char>>,
    pub download_url: Option<Seq<char>>,
}

/// An attachment as returned to the chat client: metadata, an inline
/// encoding for small files, and a download path.
pub struct FileAttachment {
    pub id: Option<String>,
    pub filename: String,
    pub mime: String,
    pub size: usize,
    pub content_base64: Option<String>,
    pub download_url: Option<String>,
}

impl View for FileAttachment {
    type V = FileAttachmentView;

    open spec fn view(&self) -> FileAttachmentView {
        FileAttachmentView {
            id: opt_view(self.id),
            filename: self.filename@,
            mime: self.mime@,
            size: self.size as nat,
            content_base64: opt_view(self.content_base64),
            download_url: opt_view(self.download_url),
        }
    }
}

/// One turn half as carried in requests and responses.
pub struct Message {
    pub role: String,
    pub content: String,
    pub timestamp: String,
}

/// An inbound chat request: the message, its sender, optional category and
/// business type, an optional conversation to continue, optional explicit
/// file directives, an optional language tag and optional context overrides.
pub struct ChatRequest {
    pub message: String,
    pub category: Option<String>,
    pub user_id: String,
    pub business_type: Option<String>,
    pub conversation_id: Option<String>,
    pub output_format: Option<String>,
    pub table: Option<TableSpec>,
    pub language: Option<String>,
    pub context_filters: Option<ContextFilters>,
}

/// A request to create a conversation explicitly, with an optional title and
/// initial context.
pub struct CreateConversationRequest {
    pub user_id: String,
    pub title: Option<String>,
    pub context: Option<ContextFilters>,
}

/// The chat reply: the assistant's text, ids and timestamp, and any
/// generated files.
pub struct ChatResponse {
    pub response: String,
    pub message_id: String,
    pub timestamp: String,
    pub conversation_id: String,
    pub files: Option<Vec<FileAttachment>>,
}

/// A one-shot advice request outside any conversation.
pub struct QuickAdviceRequest {
    pub category: String,
    pub business_type: String,
}

/// A registered account row as the profile store holds it.
pub struct User {
    pub id: String,
    pub email: String,
    pub password: String,
    pub business_type: String,
    pub created_at: String,
    pub full_name: Option<String>,
    pub nickname: Option<String>,
    pub phone: Option<String>,
    pub country: Option<String>,
    pub gender: Option<String>,
    pub profile_picture: Option<String>,
    pub telegram_username: Option<String>,
}

/// A registration or login request.
pub struct AuthRequest {
    pub email: String,
    pub password: String,
    pub business_type: Option<String>,
    pub full_name: Option<String>,
    pub nickname: Option<String>,
    pub phone: Option<String>,
    pub country: Option<String>,
    pub gender: Option<String>,
    pub profile_picture: Option<String>,
    pub telegram_username: Option<String>,
}

/// A secondary-platform user row.
pub struct TelegramUser {
    pub id: String,
    pub telegram_user_id: i64,
    pub telegram_username: Option<String>,
    pub first_name: Option<String>,
    pub last_name: Option<String>,
    pub created_at: String,
    pub user_id: Option<String>,
}

/// A request to register or look up a secondary-platform user.
pub struct CreateTelegramUserRequest {
    pub telegram_user_id: i64,
    pub telegram_username: Option<String>,
    pub first_name: Option<String>,
    pub last_name: Option<String>,
}

/// The reply describing a secondary-platform user.
pub struct TelegramUserResponse {
    pub id: String,
    pub telegram_user_id: i64,
    pub telegram_username: Option<String>,
    pub first_name: Option<String>,
    pub last_name: Option<String>,
    pub created_at: String,
    pub user_id: Option<String>,
}

/// A session-token check request.
pub struct TokenCheck {
    pub token: Option<String>,
}

/// The reply to a session-token check.
pub struct TokenStatus {
    pub valid: bool,
    pub message: String,
}

/// A profile as returned to its owner.
pub struct UserProfile {
    pub id: String,
    pub email: String,
    pub business_type: String,
    pub created_at: String,
    pub full_name: Option<String>,
    pub nickname: Option<String>,
    pub phone: Option<String>,
    pub country: Option<String>,
    pub gender: Option<String>,
    pub profile_picture: Option<String>,
    pub telegram_username: Option<String>,
}

/// A profile update: every field optional, absent fields left unchanged.
pub struct UpdateUserData {
    pub business_type: Option<String>,
    pub full_name: Option<String>,
    pub nickname: Option<String>,
    pub phone: Option<String>,
    pub country: Option<String>,
    pub gender: Option<String>,
    pub profile_picture: Option<String>,
    pub telegram_username: Option<String>,
}

/// An email-availability check request.
pub struct EmailCheckReq {
    pub email: String,
}

/// The reply to an email-availability check.
pub struct EmailCheckRes {
    pub exists: bool,
}

/// A handle-availability check request.
pub struct TelegramUsernameCheckReq {
    pub telegram_username: String,
}

/// The reply to a handle-availability check.
pub struct TelegramUsernameCheckRes {
    pub exists: bool,
}

/// The owner named in a conversation-scoped request body.
pub struct ConversationOwner {
    pub user_id: String,
}

/// A rename request: the owner and the new title, absent meaning cleared.
pub struct UpdateConversationTitle {
    pub user_id: String,
    pub title: Option<String>,
}

/// One inbound support-chat message.
pub struct SupportMessage {
    pub user_id: String,
    pub message: String,
    pub user_name: Option<String>,
    pub photo_url: Option<String>,
}

/// The reply to a support-chat send.
pub struct SupportResponse {
    pub success: bool,
    pub message_id: Option<i64>,
    pub photo_url: Option<String>,
    pub photo_count: Option<usize>,
}

/// A push-notification device registration.
pub struct DeviceRegistration {
    pub user_id: String,
    pub fcm_token: String,
    pub platform: Option<String>,
    pub device_id: Option<String>,
}

/// The support-chat history reply.
pub struct MessageHistoryResponse {
    pub success: bool,
    pub messages: Vec<MessageHistoryItem>,
    pub greeting_sent: bool,
}

/// One support-chat history entry.
pub struct MessageHistoryItem {
    pub message: String,
    pub photo_url: Option<String>,
    pub direction: String,
    pub created_at: String,
}

} // verus!
