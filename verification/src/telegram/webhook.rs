//! The parts of an incoming chat update that the command handler reads.
use vstd::prelude::*;

use crate::numbers::{i64_to_string, int_string};

verus! {

/// An update as the chat service sends it; the top-level fields take
/// precedence over the nested message.
#[derive(Debug)]
pub struct TelegramWebhookPayload {
    pub update_id: Option<i64>,
    pub telegram_user_id: Option<String>,
    pub telegram_chat_id: Option<String>,
    pub message_text: Option<String>,
    pub message: Option<TelegramMessage>,
}

#[derive(Debug)]
pub struct TelegramMessage {
    pub text: Option<String>,
    pub chat: Option<TelegramChat>,
    pub from: Option<TelegramUser>,
}

#[derive(Debug)]
pub struct TelegramChat {
    pub id: i64,
}

#[derive(Debug)]
pub struct TelegramUser {
    pub id: i64,
}

pub open spec fn opt_string_view(o: Option<String>) -> Option<Seq<char>> {
    match o {
        Some(s) => Some(s@),
        None => None,
    }
}

/// The message text: the top-level text, else the nested message's text.
pub open spec fn message_text_spec(p: TelegramWebhookPayload) -> Option<Seq<char>> {
    match p.message_text {
        Some(t) => Some(t@),
        None => match p.message {
            Some(m) => opt_string_view(m.text),
            None => None,
        },
    }
}

/// The chat id: the top-level id, else the nested chat's number in decimal.
pub open spec fn chat_id_spec(p: TelegramWebhookPayload) -> Option<Seq<char>> {
    match p.telegram_chat_id {
        Some(t) => Some(t@),
        None => match p.message {
            Some(m) => match m.chat {
                Some(c) => Some(int_string(c.id as int)),
                None => None,
            },
            None => None,
        },
    }
}

/// The sender id: the top-level id, else the nested sender's number in decimal.
pub open spec fn user_id_spec(p: TelegramWebhookPayload) -> Option<Seq<char>> {
    match p.telegram_user_id {
        Some(t) => Some(t@),
        None => match p.message {
            Some(m) => match m.from {
                Some(u) => Some(int_string(u.id as int)),
                None => None,
            },
            None => None,
        },
    }
}

fn clone_opt_string(o: &Option<String>) -> (r: Option<String>)
    ensures
        opt_string_view(r) == opt_string_view(*o),
{
    match o {
        Some(s) => Some(s.clone()),
        None => None,
    }
}

pub fn extract_message_text(payload: &TelegramWebhookPayload) -> (r: Option<String>)
    ensures
        opt_string_view(r) == message_text_spec(*payload),
{
    match &payload.message_text {
        Some(t) => Some(t.clone()),
        None => match &payload.message {
            Some(m) => clone_opt_string(&m.text),
            None => None,
        },
    }
}

pub fn extract_chat_id(payload: &TelegramWebhookPayload) -> (r: Option<String>)
    ensures
        opt_string_view(r) == chat_id_spec(*payload),
{
    match &payload.telegram_chat_id {
        Some(t) => Some(t.clone()),
        None => match &payload.message {
            Some(m) => match &m.chat {
                Some(c) => Some(i64_to_string(c.id)),
                None => None,
            },
            None => None,
        },
    }
}

pub fn extract_user_id(payload: &TelegramWebhookPayload) -> (r: Option<String>)
    ensures
        opt_string_view(r) == user_id_spec(*payload),
{
    match &payload.telegram_user_id {
        Some(t) => Some(t.clone()),
        None => match &payload.message {
            Some(m) => match &m.from {
                Some(u) => Some(i64_to_string(u.id)),
                None => None,
            },
            None => None,
        },
    }
}

} // verus!
