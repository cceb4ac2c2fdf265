//! The data that flows through the pipelines.

pub mod config;
pub mod email;
pub mod events;
pub mod messages;

pub use config::{
    AppRouting, AppRoutingView, AttachmentConfig, MailflowConfig, RetentionConfig, RouteEntry,
    RoutingTable, SecurityConfig,
};
pub use email::{
    Attachment, AttachmentData, AttachmentStatus, Email, EmailAddress, EmailBody, EmailHeaders,
    Timestamp,
};
pub use events::{
    LambdaEvent, MessageAttribute, S3Bucket, S3Event, S3EventRecord, S3Info, S3Object, SesAction,
    SesEvent, SesEventRecord, SesInfo, SesMail, SesPayload, SesReceipt, SesReceiptFull, SqsEvent,
    SqsRecord, Verdict,
};
pub use messages::{
    default_priority, InboundEmail, InboundMessage, MessageMetadata, OutboundAttachment,
    OutboundEmail, OutboundMessage, Priority, SendOptions,
};
