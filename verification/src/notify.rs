//! Notifications sent when a download ends: to a webhook, and to a Bark
//! server as a title and a body in the URL.

use vstd::prelude::*;
use crate::text::{
    chars_of, i64_to_string, str_equal, int_decimal, nat_decimal, push_str, trim_end_char,
    usize_to_string,
};

verus! {

/// What a download's end is reported with.
pub struct WebhookPayload {
    pub event: String,
    /// `success` or `failed`.
    pub status: String,
    pub comic_id: Option<i64>,
    pub title: String,
    pub download_dir: Option<String>,
    pub zip_path: Option<String>,
    pub image_count: Option<i64>,
    pub completed_images: usize,
    pub total_images: usize,
    pub reason: Option<String>,
}

/// Where a notification goes.
pub enum NotificationTarget {
    Webhook(String),
    Bark(String),
}

/// The text of an optional comic id, `-` when there is none.
pub open spec fn comic_id_text(id: Option<i64>) -> Seq<char> {
    match id {
        Some(i) => int_decimal(i as int),
        None => "-"@,
    }
}

/// The Bark title of a notification.
pub open spec fn bark_title(p: WebhookPayload) -> Seq<char> {
    if p.status@ == "success"@ {
        "下载完成 #"@ + comic_id_text(p.comic_id)
    } else {
        "下载失败 #"@ + comic_id_text(p.comic_id)
    }
}

/// The Bark body of a notification: the title of a comic downloaded; for a
/// failure, the reason, the title and how many images were done.
pub open spec fn bark_body(p: WebhookPayload) -> Seq<char> {
    if p.status@ == "success"@ {
        p.title@
    } else {
        (match p.reason {
            Some(r) => r@,
            None => "未知错误"@,
        }) + " | "@ + p.title@ + " | "@ + nat_decimal(p.completed_images as nat) + "/"@
            + nat_decimal(p.total_images as nat)
    }
}

/// The text of an optional comic id.
fn comic_id_string(id: Option<i64>) -> (s: String)
    ensures
        s@ == comic_id_text(id),
{
    match id {
        Some(i) => i64_to_string(i),
        None => String::from_str("-"),
    }
}

/// The title and body of the Bark notification for a download's end.
pub fn bark_message_from_payload(payload: &WebhookPayload) -> (r: (String, String))
    ensures
        r.0@ == bark_title(*payload),
        r.1@ == bark_body(*payload),
{
    let success = str_equal(payload.status.as_str(), "success");
    let mut title = if success {
        String::from_str("下载完成 #")
    } else {
        String::from_str("下载失败 #")
    };
    push_str(&mut title, comic_id_string(payload.comic_id).as_str());
    let body = if success {
        payload.title.clone()
    } else {
        let mut body = match &payload.reason {
            Some(r) => r.clone(),
            None => String::from_str("未知错误"),
        };
        push_str(&mut body, " | ");
        push_str(&mut body, payload.title.as_str());
        push_str(&mut body, " | ");
        push_str(&mut body, usize_to_string(payload.completed_images).as_str());
        push_str(&mut body, "/");
        push_str(&mut body, usize_to_string(payload.total_images).as_str());
        body
    };
    (title, body)
}

/// A configured URL: set and not empty.
pub open spec fn configured(url: Option<String>) -> bool {
    match url {
        Some(u) => u@.len() > 0,
        None => false,
    }
}

/// The texts of notification targets, tagged `true` for a webhook.
pub open spec fn target_texts(ts: Seq<NotificationTarget>) -> Seq<(bool, Seq<char>)> {
    ts.map_values(
        |t: NotificationTarget|
            match t {
                NotificationTarget::Webhook(u) => (true, u@),
                NotificationTarget::Bark(u) => (false, u@),
            },
    )
}

/// The notifications to send: the webhook first, then Bark, each only when
/// its URL is configured.
pub fn notification_targets(webhook_url: &Option<String>, bark_url: &Option<String>) -> (r: Vec<
    NotificationTarget,
>)
    ensures
        target_texts(r@) == (if configured(*webhook_url) {
            seq![(true, webhook_url.unwrap()@)]
        } else {
            Seq::empty()
        }) + (if configured(*bark_url) {
            seq![(false, bark_url.unwrap()@)]
        } else {
            Seq::empty()
        }),
{
    let mut targets: Vec<NotificationTarget> = Vec::new();
    if let Some(url) = webhook_url {
        if chars_of(url.as_str()).len() > 0 {
            targets.push(NotificationTarget::Webhook(url.clone()));
        }
    }
    let ghost mid = target_texts(targets@);
    if let Some(url) = bark_url {
        if chars_of(url.as_str()).len() > 0 {
            targets.push(NotificationTarget::Bark(url.clone()));
            assert(target_texts(targets@) =~= mid.push((false, url@)));
        }
    }
    let ghost expected = (if configured(*webhook_url) {
        seq![(true, webhook_url.unwrap()@)]
    } else {
        Seq::<(bool, Seq<char>)>::empty()
    }) + (if configured(*bark_url) {
        seq![(false, bark_url.unwrap()@)]
    } else {
        Seq::<(bool, Seq<char>)>::empty()
    });
    assert(target_texts(targets@) =~= expected);
    targets
}

/// A byte that URL encoding leaves as it is: ASCII letters and digits and `- . _ ~`.
pub open spec fn is_url_safe_byte(b: u8) -> bool {
    (0x30 <= b <= 0x39) || (0x41 <= b <= 0x5a) || (0x61 <= b <= 0x7a) || b == 0x2d || b == 0x2e
        || b == 0x5f || b == 0x7e
}

/// An upper-case hexadecimal digit.
pub open spec fn hex_digit(d: u8) -> char {
    if d < 10 {
        (d + 0x30) as char
    } else {
        (d + 0x37) as char
    }
}

/// Percent-encoding of bytes: safe bytes as they are, others as `%XY`.
pub open spec fn percent_encoded(bytes: Seq<u8>) -> Seq<char>
    decreases bytes.len(),
{
    if bytes.len() == 0 {
        Seq::empty()
    } else {
        let b = bytes.last();
        percent_encoded(bytes.drop_last()) + if is_url_safe_byte(b) {
            seq![b as char]
        } else {
            seq!['%', hex_digit(b / 16), hex_digit(b % 16)]
        }
    }
}

/// `urlencoding::encode`: the UTF-8 bytes of the text, percent-encoded.
pub open spec fn url_encoded(s: Seq<char>) -> Seq<char> {
    percent_encoded(vstd::utf8::encode_utf8(s))
}

/// `urlencoding::encode`, which percent-encodes every byte of the UTF-8
/// text except ASCII letters, digits and `- . _ ~`, with upper-case hex.
#[verifier::external_body]
fn url_encode(s: &str) -> (r: String)
    ensures
        r@ == url_encoded(s@),
{
    urlencoding::encode(s).into_owned()
}

/// The URL of a Bark notification: the configured Bark URL without trailing
/// slashes, then the encoded title and the encoded body as path segments.
pub fn bark_request_url(bark_url: &str, title: &str, body: &str) -> (r: String)
    ensures
        r@ == trim_end_char(bark_url@, '/') + "/"@ + url_encoded(title@) + "/"@ + url_encoded(
            body@,
        ),
{
    let base = crate::text::trim_end_slashes(bark_url);
    let mut r = base;
    push_str(&mut r, "/");
    push_str(&mut r, url_encode(title).as_str());
    push_str(&mut r, "/");
    push_str(&mut r, url_encode(body).as_str());
    r
}

} // verus!
