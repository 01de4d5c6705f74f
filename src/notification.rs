use vstd::prelude::*;

verus! {

/// What a notification is about.
#[derive(Clone, Copy, PartialEq, Eq, Structural, Debug)]
pub enum NotificationType {
    FocusBreakSuggestion,
    ContextLabeling,
    AnomalyDetection,
    GoalProgress,
}

/// How the user answers a notification action.
#[derive(Clone, Copy, PartialEq, Eq, Structural, Debug)]
pub enum ResponseType {
    Button,
    VoiceInput,
    TextInput,
}

/// One answer a notification offers.
pub struct NotificationAction {
    pub id: String,
    pub label: String,
    pub response_type: ResponseType,
}

/// A notification that may ask the user for an answer.
pub struct SmartNotification {
    pub id: String,
    pub title: String,
    pub body: String,
    pub notification_type: NotificationType,
    pub actions: Vec<NotificationAction>,
    pub requires_voice_input: bool,
}

} // verus!
