//! Data model of the client: messages, users, patients, windows and the
//! common request/response shapes.
//!
//! Timestamps are carried as milliseconds since the Unix epoch (`i64`),
//! so that every field is a plain value the contracts can speak about.
//! Each closed string-tagged kind is an enum with `as_str` giving its
//! wire spelling and `parse_*` giving the inverse.

use vstd::prelude::*;

use crate::strutil::str_eq;

verus! {

// ---------------------------------------------------------------------
// Message model
// ---------------------------------------------------------------------

#[derive(Clone, Copy, Debug, PartialEq, Eq, Structural)]
pub enum MessageType {
    Text,
    Image,
    Voice,
    File,
    Template,
}

pub open spec fn spec_message_type_str(t: MessageType) -> Seq<char> {
    match t {
        MessageType::Text => "text"@,
        MessageType::Image => "image"@,
        MessageType::Voice => "voice"@,
        MessageType::File => "file"@,
        MessageType::Template => "template"@,
    }
}

impl MessageType {
    pub fn as_str(&self) -> (r: &'static str)
        ensures
            r@ == spec_message_type_str(*self),
    {
        match self {
            MessageType::Text => "text",
            MessageType::Image => "image",
            MessageType::Voice => "voice",
            MessageType::File => "file",
            MessageType::Template => "template",
        }
    }
}

/// Reads a message kind back from its wire spelling; `None` exactly when
/// the text is the spelling of no kind.
pub fn parse_message_type(s: &str) -> (r: Option<MessageType>)
    ensures
        match r {
            Some(t) => s@ == spec_message_type_str(t),
            None => forall|t: MessageType| s@ != spec_message_type_str(t),
        },
{
    if str_eq(s, "text") {
        Some(MessageType::Text)
    } else if str_eq(s, "image") {
        Some(MessageType::Image)
    } else if str_eq(s, "voice") {
        Some(MessageType::Voice)
    } else if str_eq(s, "file") {
        Some(MessageType::File)
    } else if str_eq(s, "template") {
        Some(MessageType::Template)
    } else {
        proof {
            assert(forall|t: MessageType| s@ != spec_message_type_str(t)) by {
                assert forall|t: MessageType| s@ != spec_message_type_str(t) by {
                    match t {
                        MessageType::Text => {},
                        MessageType::Image => {},
                        MessageType::Voice => {},
                        MessageType::File => {},
                        MessageType::Template => {},
                    }
                }
            }
        }
        None
    }
}

#[derive(Clone, Copy, Debug, PartialEq, Eq, Structural)]
pub enum SenderType {
    Doctor,
    Patient,
}

pub open spec fn spec_sender_type_str(t: SenderType) -> Seq<char> {
    match t {
        SenderType::Doctor => "doctor"@,
        SenderType::Patient => "patient"@,
    }
}

impl SenderType {
    pub fn as_str(&self) -> (r: &'static str)
        ensures
            r@ == spec_sender_type_str(*self),
    {
        match self {
            SenderType::Doctor => "doctor",
            SenderType::Patient => "patient",
        }
    }
}

pub fn parse_sender_type(s: &str) -> (r: Option<SenderType>)
    ensures
        match r {
            Some(t) => s@ == spec_sender_type_str(t),
            None => forall|t: SenderType| s@ != spec_sender_type_str(t),
        },
{
    if str_eq(s, "doctor") {
        Some(SenderType::Doctor)
    } else if str_eq(s, "patient") {
        Some(SenderType::Patient)
    } else {
        proof {
            assert forall|t: SenderType| s@ != spec_sender_type_str(t) by {
                match t {
                    SenderType::Doctor => {},
                    SenderType::Patient => {},
                }
            }
        }
        None
    }
}

#[derive(Clone, Copy, Debug, PartialEq, Eq, Structural)]
pub enum SyncStatus {
    Pending,
    Synced,
    Failed,
}

pub open spec fn spec_sync_status_str(t: SyncStatus) -> Seq<char> {
    match t {
        SyncStatus::Pending => "pending"@,
        SyncStatus::Synced => "synced"@,
        SyncStatus::Failed => "failed"@,
    }
}

impl SyncStatus {
    pub fn as_str(&self) -> (r: &'static str)
        ensures
            r@ == spec_sync_status_str(*self),
    {
        match self {
            SyncStatus::Pending => "pending",
            SyncStatus::Synced => "synced",
            SyncStatus::Failed => "failed",
        }
    }
}

#[derive(Clone, Copy, Debug, PartialEq, Eq, Structural)]
pub enum ReadStatus {
    Unread,
    Read,
}

pub open spec fn spec_read_status_str(t: ReadStatus) -> Seq<char> {
    match t {
        ReadStatus::Unread => "unread"@,
        ReadStatus::Read => "read"@,
    }
}

impl ReadStatus {
    pub fn as_str(&self) -> (r: &'static str)
        ensures
            r@ == spec_read_status_str(*self),
    {
        match self {
            ReadStatus::Unread => "unread",
            ReadStatus::Read => "read",
        }
    }
}

/// A chat message, as stored and as carried in `message` events.
#[derive(Debug)]
pub struct Message {
    pub id: String,
    pub consultation_id: String,
    pub sender_type: SenderType,
    pub message_type: MessageType,
    pub content: Option<String>,
    pub file_path: Option<String>,
    pub file_size: Option<u64>,
    pub mime_type: Option<String>,
    pub timestamp: i64,
    pub sync_status: SyncStatus,
    pub read_status: ReadStatus,
}

/// A request to send a message into a consultation.
#[derive(Debug)]
pub struct SendMessageRequest {
    pub consultation_id: String,
    pub message_type: MessageType,
    pub content: String,
    pub file_id: Option<String>,
    pub reply_to: Option<String>,
}

// ---------------------------------------------------------------------
// User model
// ---------------------------------------------------------------------

#[derive(Clone, Copy, Debug, PartialEq, Eq, Structural)]
pub enum AuditStatus {
    Pending,
    Approved,
    Rejected,
    Incomplete,
}

pub open spec fn spec_audit_status_str(t: AuditStatus) -> Seq<char> {
    match t {
        AuditStatus::Pending => "pending"@,
        AuditStatus::Approved => "approved"@,
        AuditStatus::Rejected => "rejected"@,
        AuditStatus::Incomplete => "incomplete"@,
    }
}

impl AuditStatus {
    pub fn as_str(&self) -> (r: &'static str)
        ensures
            r@ == spec_audit_status_str(*self),
    {
        match self {
            AuditStatus::Pending => "pending",
            AuditStatus::Approved => "approved",
            AuditStatus::Rejected => "rejected",
            AuditStatus::Incomplete => "incomplete",
        }
    }
}

#[derive(Clone, Copy, Debug, PartialEq, Eq, Structural)]
pub enum LoginType {
    Password,
    Sms,
    Realname,
}

/// The credentials a login attempt carries; which fields matter depends
/// on `login_type`.
#[derive(Debug)]
pub struct LoginCredentials {
    pub login_type: LoginType,
    pub username: Option<String>,
    pub password: Option<String>,
    pub phone: Option<String>,
    pub sms_code: Option<String>,
    pub id_card: Option<String>,
}

// ---------------------------------------------------------------------
// Patient model
// ---------------------------------------------------------------------

#[derive(Clone, Copy, Debug, PartialEq, Eq, Structural)]
pub enum Gender {
    Male,
    Female,
}

pub open spec fn spec_gender_str(t: Gender) -> Seq<char> {
    match t {
        Gender::Male => "male"@,
        Gender::Female => "female"@,
    }
}

impl Gender {
    pub fn as_str(&self) -> (r: &'static str)
        ensures
            r@ == spec_gender_str(*self),
    {
        match self {
            Gender::Male => "male",
            Gender::Female => "female",
        }
    }
}

#[derive(Debug)]
pub struct Prescription {
    pub id: String,
    pub medication_name: String,
    pub dosage: String,
    pub frequency: String,
    pub duration: String,
    pub instructions: String,
}

#[derive(Debug)]
pub struct MedicalRecord {
    pub id: String,
    pub patient_id: String,
    pub consultation_id: String,
    pub diagnosis: String,
    pub symptoms: Vec<String>,
    pub prescription: Vec<Prescription>,
    pub doctor_id: String,
    pub doctor_name: String,
    pub created_at: i64,
}

#[derive(Debug)]
pub struct Patient {
    pub id: String,
    pub name: String,
    pub age: u32,
    pub gender: Gender,
    pub phone: String,
    pub id_card: Option<String>,
    pub avatar: Option<String>,
    pub tags: Vec<String>,
    pub last_visit: Option<i64>,
    pub medical_history: Vec<MedicalRecord>,
    pub created_at: i64,
    pub updated_at: i64,
}

#[derive(Clone, Copy, Debug, PartialEq, Eq, Structural)]
pub struct AgeRange {
    pub min: u32,
    pub max: u32,
}

#[derive(Clone, Copy, Debug, PartialEq, Eq, Structural)]
pub struct DateRange {
    pub start: i64,
    pub end: i64,
}

#[derive(Debug)]
pub struct PatientQuery {
    pub keyword: Option<String>,
    pub tags: Option<Vec<String>>,
    pub gender: Option<Gender>,
    pub age_range: Option<AgeRange>,
    pub last_visit_range: Option<DateRange>,
    pub page: u32,
    pub page_size: u32,
}

// ---------------------------------------------------------------------
// Consultation model
// ---------------------------------------------------------------------

#[derive(Clone, Copy, Debug, PartialEq, Eq, Structural)]
pub enum OrderStatus {
    Pending,
    Accepted,
    InProgress,
    Completed,
    Cancelled,
    Expired,
}

pub open spec fn spec_order_status_str(t: OrderStatus) -> Seq<char> {
    match t {
        OrderStatus::Pending => "pending"@,
        OrderStatus::Accepted => "accepted"@,
        OrderStatus::InProgress => "in_progress"@,
        OrderStatus::Completed => "completed"@,
        OrderStatus::Cancelled => "cancelled"@,
        OrderStatus::Expired => "expired"@,
    }
}

impl OrderStatus {
    pub fn as_str(&self) -> (r: &'static str)
        ensures
            r@ == spec_order_status_str(*self),
    {
        match self {
            OrderStatus::Pending => "pending",
            OrderStatus::Accepted => "accepted",
            OrderStatus::InProgress => "in_progress",
            OrderStatus::Completed => "completed",
            OrderStatus::Cancelled => "cancelled",
            OrderStatus::Expired => "expired",
        }
    }
}

// ---------------------------------------------------------------------
// Window model
// ---------------------------------------------------------------------

#[derive(Clone, Copy, Debug, PartialEq, Eq, Structural)]
pub enum WindowType {
    Main,
    Consultation,
    PatientDetail,
    Settings,
    Notification,
}

pub open spec fn spec_window_type_str(t: WindowType) -> Seq<char> {
    match t {
        WindowType::Main => "main"@,
        WindowType::Consultation => "consultation"@,
        WindowType::PatientDetail => "patient_detail"@,
        WindowType::Settings => "settings"@,
        WindowType::Notification => "notification"@,
    }
}

impl WindowType {
    pub fn as_str(&self) -> (r: &'static str)
        ensures
            r@ == spec_window_type_str(*self),
    {
        match self {
            WindowType::Main => "main",
            WindowType::Consultation => "consultation",
            WindowType::PatientDetail => "patient_detail",
            WindowType::Settings => "settings",
            WindowType::Notification => "notification",
        }
    }
}

#[derive(Clone, Copy, Debug, PartialEq, Eq, Structural)]
pub enum WindowState {
    Normal,
    Minimized,
    Maximized,
    Fullscreen,
}

#[derive(Clone, Copy, Debug, PartialEq, Eq, Structural)]
pub enum WindowEventType {
    Created,
    Closed,
    Focused,
    Minimized,
    Maximized,
    Moved,
    Resized,
}

#[derive(Clone, Copy, Debug, PartialEq, Eq, Structural)]
pub struct WindowPosition {
    pub x: i32,
    pub y: i32,
}

#[derive(Clone, Copy, Debug, PartialEq, Eq, Structural)]
pub struct WindowSize {
    pub width: u32,
    pub height: u32,
}

/// Extra data a window carries, as plain key/value text.
#[derive(Debug)]
pub struct WindowData {
    pub consultation_id: Option<String>,
    pub patient_id: Option<String>,
    pub extra: Vec<(String, String)>,
}

#[derive(Debug)]
pub struct WindowConfig {
    pub window_type: WindowType,
    pub title: String,
    pub url: String,
    pub data: Option<WindowData>,
    pub width: Option<u32>,
    pub height: Option<u32>,
    pub min_width: Option<u32>,
    pub min_height: Option<u32>,
    pub resizable: Option<bool>,
    pub center: Option<bool>,
    pub always_on_top: Option<bool>,
}

// ---------------------------------------------------------------------
// File model
// ---------------------------------------------------------------------

/// Descriptive record of an uploaded or cached file.
#[derive(Debug)]
pub struct FileInfo {
    pub id: String,
    pub name: String,
    pub url: String,
    pub local_path: Option<String>,
    pub file_type: String,
    pub size: u64,
    pub thumbnail: Option<String>,
}

// ---------------------------------------------------------------------
// Common shapes
// ---------------------------------------------------------------------

#[derive(Clone, Copy, Debug, PartialEq, Eq, Structural)]
pub struct PaginationParams {
    pub page: u32,
    pub page_size: u32,
}

#[derive(Debug)]
pub struct PaginatedResponse<T> {
    pub items: Vec<T>,
    pub total: u32,
    pub page: u32,
    pub page_size: u32,
    pub total_pages: u32,
}

#[derive(Clone, Copy, Debug, PartialEq, Eq, Structural)]
pub enum ErrorType {
    NetworkError,
    AuthError,
    ValidationError,
    PermissionError,
    DataError,
    SystemError,
    UnknownError,
}

pub open spec fn spec_error_type_str(t: ErrorType) -> Seq<char> {
    match t {
        ErrorType::NetworkError => "NETWORK_ERROR"@,
        ErrorType::AuthError => "AUTH_ERROR"@,
        ErrorType::ValidationError => "VALIDATION_ERROR"@,
        ErrorType::PermissionError => "PERMISSION_ERROR"@,
        ErrorType::DataError => "DATA_ERROR"@,
        ErrorType::SystemError => "SYSTEM_ERROR"@,
        ErrorType::UnknownError => "UNKNOWN_ERROR"@,
    }
}

impl ErrorType {
    pub fn as_str(&self) -> (r: &'static str)
        ensures
            r@ == spec_error_type_str(*self),
    {
        match self {
            ErrorType::NetworkError => "NETWORK_ERROR",
            ErrorType::AuthError => "AUTH_ERROR",
            ErrorType::ValidationError => "VALIDATION_ERROR",
            ErrorType::PermissionError => "PERMISSION_ERROR",
            ErrorType::DataError => "DATA_ERROR",
            ErrorType::SystemError => "SYSTEM_ERROR",
            ErrorType::UnknownError => "UNKNOWN_ERROR",
        }
    }
}

#[derive(Debug)]
pub struct ValidationError {
    pub error_type: ErrorType,
    pub message: String,
    pub field: Option<String>,
    pub violations: Vec<ValidationViolation>,
}

#[derive(Debug)]
pub struct ValidationViolation {
    pub field: String,
    pub message: String,
    pub code: String,
}

#[derive(Clone, Copy, Debug, PartialEq, Eq, Structural)]
pub enum UploadStatus {
    Uploading,
    Completed,
    Failed,
    Cancelled,
}

#[derive(Debug)]
pub struct AppConfig {
    pub api_base_url: String,
    pub ws_url: String,
    pub max_file_size: u64,
    pub allowed_file_types: Vec<String>,
    pub cache_expiration: u64,
    pub retry_attempts: u32,
    pub retry_delay: u64,
    pub window_limits: WindowLimitsConfig,
}

#[derive(Clone, Copy, Debug, PartialEq, Eq, Structural)]
pub struct WindowLimitsConfig {
    pub max_windows: u32,
    pub max_consultation_windows: u32,
}

#[derive(Clone, Copy, Debug, PartialEq, Eq, Structural)]
pub enum LogLevel {
    Debug,
    Info,
    Warn,
    Error,
}

#[derive(Clone, Copy, Debug, PartialEq, Eq, Structural)]
pub enum NotificationType {
    Info,
    Success,
    Warning,
    Error,
}

#[derive(Debug)]
pub struct NotificationAction {
    pub label: String,
    pub action: String,
    pub primary: Option<bool>,
}

#[derive(Debug)]
pub struct KeyValuePair<T> {
    pub key: String,
    pub value: T,
}

#[derive(Debug)]
pub struct SelectOption<T> {
    pub label: String,
    pub value: T,
    pub disabled: Option<bool>,
}

#[derive(Clone, Copy, Debug, PartialEq, Eq, Structural)]
pub enum SortOrder {
    Asc,
    Desc,
}

#[derive(Debug)]
pub struct SortParams {
    pub field: String,
    pub order: SortOrder,
}

#[derive(Debug)]
pub struct SearchParams {
    pub keyword: String,
    pub fields: Option<Vec<String>>,
    pub exact: Option<bool>,
}

} // verus!
