//! The Telegram endpoints: the webhook's secret and the setup request.
use vstd::prelude::*;

use crate::errors::{is_bad_request, AppError};
use crate::text::{chars_of, string_of, trim, trim_seq};

verus! {

/// A request to register the bot's webhook.
#[derive(Debug, Clone)]
pub struct TelegramSetupRequest {
    pub bot_token: String,
    pub webhook_url: String,
}

/// The answer to a setup request.
#[derive(Debug, Clone)]
pub struct TelegramSetupResponse {
    pub ok: bool,
    pub description: String,
}

pub open spec fn setup_notice() -> Seq<char> {
    "웹훅 자동 등록은 아직 비활성화되어 있습니다. 텔레그램 콘솔에서 웹훅을 수동 등록해 주세요."@
}

/// Answers a setup request: a bot token and a webhook address are needed,
/// and registration by the server is not done, which the answer says.
pub fn telegram_setup_reply(req: &TelegramSetupRequest) -> (r: Result<TelegramSetupResponse, AppError>)
    ensures
        trim_seq(req.bot_token@).len() == 0 ==> (r matches Err(e) && is_bad_request(
            e,
            "봇 토큰을 입력해 주세요"@,
        )),
        trim_seq(req.bot_token@).len() > 0 && trim_seq(req.webhook_url@).len() == 0 ==> (r matches Err(e)
            && is_bad_request(e, "웹훅 URL을 입력해 주세요"@)),
        trim_seq(req.bot_token@).len() > 0 && trim_seq(req.webhook_url@).len() > 0 ==> (r matches Ok(
            resp,
        ) && !resp.ok && resp.description@ == setup_notice()),
{
    if trim(req.bot_token.as_str()).as_str().unicode_len() == 0 {
        return Err(AppError::bad_request("봇 토큰을 입력해 주세요"));
    }
    if trim(req.webhook_url.as_str()).as_str().unicode_len() == 0 {
        return Err(AppError::bad_request("웹훅 URL을 입력해 주세요"));
    }
    Ok(
        TelegramSetupResponse {
            ok: false,
            description: string_of(
                &chars_of(
                    "웹훅 자동 등록은 아직 비활성화되어 있습니다. 텔레그램 콘솔에서 웹훅을 수동 등록해 주세요.",
                ),
            ),
        },
    )
}

proof fn lemma_or_xor_zero(acc: u8, x: u8, y: u8)
    ensures
        (acc | (x ^ y)) == 0 <==> (acc == 0 && x == y),
{
    assert((acc | (x ^ y)) == 0 <==> (acc == 0 && x == y)) by (bit_vector);
}

/// Compares two byte strings in time that depends on their length only:
/// the differences of all positions are gathered before the answer is
/// given. They are equal exactly when they have the same bytes.
pub fn constant_time_eq(a: &[u8], b: &[u8]) -> (r: bool)
    ensures
        r == (a@ == b@),
{
    if a.len() != b.len() {
        return false;
    }
    let mut acc: u8 = 0;
    let mut i: usize = 0;
    while i < a.len()
        invariant
            i <= a@.len(),
            a@.len() == b@.len(),
            (acc == 0) == (forall|j: int| 0 <= j < i ==> a@[j] == b@[j]),
        decreases a@.len() - i,
    {
        proof {
            lemma_or_xor_zero(acc, a@[i as int], b@[i as int]);
        }
        acc = acc | (a[i] ^ b[i]);
        i += 1;
    }
    if acc == 0 {
        assert(a@ =~= b@);
        true
    } else {
        false
    }
}

/// Whether a webhook call is let in: where a secret is set, the call must
/// carry it (an absent header counts as empty); where none is set, every
/// call is.
pub fn webhook_secret_ok(expected: Option<&str>, provided: Option<&str>) -> (r: bool)
    ensures
        r == match expected {
            None => true,
            Some(e) => match provided {
                Some(p) => p@ == e@,
                None => e@.len() == 0,
            },
        },
{
    match expected {
        None => true,
        Some(e) => {
            let p: &str = match provided {
                Some(p) => p,
                None => "",
            };
            let ok = constant_time_eq(p.as_bytes(), e.as_bytes());
            proof {
                reveal_strlit("");
                vstd::utf8::encode_utf8_decode_utf8(p@);
                vstd::utf8::encode_utf8_decode_utf8(e@);
            }
            ok
        },
    }
}

} // verus!
