//! Webhook delivery: which events a hook wants, how a payload is signed, and when a failed
//! delivery is retried.
use vstd::prelude::*;

use hmac::{Hmac, Mac};
use sha2::Sha256;

use crate::events::Event;
use crate::hexfmt::{encode_hex, hex_encode};
use crate::numtext::{decimal, push_decimal};
use crate::text::{append_str, chars_eq, push_char, to_chars};

verus! {

/// A webhook: where to post, the signing secret, the event types it wants (all where
/// empty), how often to retry and how long to wait.
#[derive(Clone)]
pub struct WebhookConfig {
    pub url: String,
    pub secret: Option<String>,
    pub events: Vec<String>,
    pub retry_count: u32,
    pub timeout_ms: u64,
}

/// A character as it stands inside a quoted text: `"` and `\` behind a backslash, and
/// newline, carriage return, tab and NUL as `\n`, `\r`, `\t`, `\0`.
pub open spec fn escaped_char(c: char) -> Seq<char> {
    if c == '"' {
        seq!['\\', '"']
    } else if c == '\\' {
        seq!['\\', '\\']
    } else if c == '\n' {
        seq!['\\', 'n']
    } else if c == '\r' {
        seq!['\\', 'r']
    } else if c == '\t' {
        seq!['\\', 't']
    } else if c == '\0' {
        seq!['\\', '0']
    } else {
        seq![c]
    }
}

/// A text with each character escaped.
pub open spec fn escaped(s: Seq<char>) -> Seq<char>
    decreases s.len(),
{
    if s.len() == 0 {
        Seq::empty()
    } else {
        escaped(s.drop_last()) + escaped_char(s.last())
    }
}

/// A text in double quotes, escaped.
pub open spec fn quoted(s: Seq<char>) -> Seq<char> {
    seq!['"'] + escaped(s) + seq!['"']
}

/// Quoted texts separated by `, `.
pub open spec fn quoted_list(v: Seq<Seq<char>>) -> Seq<char>
    decreases v.len(),
{
    if v.len() == 0 {
        Seq::empty()
    } else if v.len() == 1 {
        quoted(v[0])
    } else {
        quoted_list(v.drop_last()) + ", "@ + quoted(v.last())
    }
}

/// The debug text of a webhook configuration: its fields by name, with the secret shown only
/// as `[REDACTED]`.
pub open spec fn webhook_debug_text(c: WebhookConfig) -> Seq<char> {
    "WebhookConfig { url: "@ + quoted(c.url@) + ", secret: "@ + match c.secret {
        Some(_) => "Some(\"[REDACTED]\")"@,
        None => "None"@,
    } + ", events: ["@ + quoted_list(c.events@.map_values(|e: String| e@)) + "], retry_count: "@ + decimal(
        c.retry_count as nat,
    ) + ", timeout_ms: "@ + decimal(c.timeout_ms as nat) + " }"@
}

fn push_quoted(out: &mut String, s: &str)
    ensures
        final(out)@ == old(out)@ + quoted(s@),
{
    let cs = to_chars(s);
    let ghost start = out@;
    push_char(out, '"');
    let mut i: usize = 0;
    while i < cs.len()
        invariant
            cs@ == s@,
            i <= cs@.len(),
            out@ == start + seq!['"'] + escaped(cs@.take(i as int)),
        decreases cs@.len() - i,
    {
        let c = cs[i];
        proof {
            assert(cs@.take(i + 1).drop_last() =~= cs@.take(i as int));
            assert(cs@.take(i + 1).last() == c);
        }
        let ghost before = out@;
        if c == '"' {
            push_char(out, '\\');
            push_char(out, '"');
        } else if c == '\\' {
            push_char(out, '\\');
            push_char(out, '\\');
        } else if c == '\n' {
            push_char(out, '\\');
            push_char(out, 'n');
        } else if c == '\r' {
            push_char(out, '\\');
            push_char(out, 'r');
        } else if c == '\t' {
            push_char(out, '\\');
            push_char(out, 't');
        } else if c == '\0' {
            push_char(out, '\\');
            push_char(out, '0');
        } else {
            push_char(out, c);
        }
        proof {
            assert(out@ =~= before + escaped_char(c));
        }
        i = i + 1;
    }
    push_char(out, '"');
    proof {
        assert(cs@.take(cs@.len() as int) =~= cs@);
    }
}

impl WebhookConfig {
    /// The configuration as a debug text: every field by name, the secret redacted.
    pub fn debug_text(&self) -> (r: String)
        ensures
            r@ == webhook_debug_text(*self),
    {
        let mut out = "WebhookConfig { url: ".to_owned();
        push_quoted(&mut out, self.url.as_str());
        append_str(&mut out, ", secret: ");
        match &self.secret {
            Some(_) => append_str(&mut out, "Some(\"[REDACTED]\")"),
            None => append_str(&mut out, "None"),
        }
        append_str(&mut out, ", events: [");
        let ghost start = out@;
        let ghost ev = self.events@.map_values(|e: String| e@);
        let mut i: usize = 0;
        while i < self.events.len()
            invariant
                i <= self.events@.len(),
                ev == self.events@.map_values(|e: String| e@),
                out@ == start + quoted_list(ev.take(i as int)),
            decreases self.events@.len() - i,
        {
            proof {
                assert(ev.take(i + 1).drop_last() =~= ev.take(i as int));
                assert(ev.take(i + 1).last() == self.events@[i as int]@);
            }
            if i > 0 {
                append_str(&mut out, ", ");
            }
            push_quoted(&mut out, self.events[i].as_str());
            proof {
                if i == 0 {
                    assert(ev.take(1)[0] == self.events@[0]@);
                    assert(out@ =~= start + quoted_list(ev.take(1)));
                } else {
                    assert(out@ =~= start + quoted_list(ev.take(i + 1)));
                }
            }
            i = i + 1;
        }
        proof {
            assert(ev.take(ev.len() as int) =~= ev);
        }
        append_str(&mut out, "], retry_count: ");
        push_decimal(&mut out, self.retry_count as u64);
        append_str(&mut out, ", timeout_ms: ");
        push_decimal(&mut out, self.timeout_ms);
        append_str(&mut out, " }");
        out
    }
}

/// Retries when a configuration does not say.
pub fn default_retry_count() -> (r: u32)
    ensures
        r == 3,
{
    3
}

/// Timeout when a configuration does not say.
pub fn default_timeout_ms() -> (r: u64)
    ensures
        r == 5000,
{
    5000
}

/// Why webhooks could not be set up.
#[derive(Debug, Clone)]
pub enum WebhookError {
    ClientInit(String),
}

/// The display text of a webhook error.
pub open spec fn webhook_error_text(e: WebhookError) -> Seq<char> {
    match e {
        WebhookError::ClientInit(m) => "Failed to initialize HTTP client: "@ + m@,
    }
}

impl WebhookError {
    /// The error's message, as its display text would read.
    pub fn message(&self) -> (r: String)
        ensures
            r@ == webhook_error_text(*self),
    {
        match self {
            WebhookError::ClientInit(m) => {
                let mut s = "Failed to initialize HTTP client: ".to_owned();
                append_str(&mut s, m.as_str());
                s
            },
        }
    }
}

/// The name of an event's type, as webhooks see it.
pub open spec fn event_name(e: Event) -> Seq<char> {
    match e {
        Event::FileAccessed { .. } => "file_accessed"@,
        Event::FileAdded { .. } => "file_added"@,
        Event::FileRemoved { .. } => "file_removed"@,
        Event::FileModified { .. } => "file_modified"@,
        Event::SyncStarted { .. } => "sync_started"@,
        Event::SyncCompleted { .. } => "sync_completed"@,
        Event::OriginHealthChanged { .. } => "origin_health_changed"@,
        Event::CacheEviction { .. } => "cache_eviction"@,
        Event::OriginConnected { .. } => "origin_connected"@,
        Event::OriginDisconnected { .. } => "origin_disconnected"@,
        Event::AllOriginsUnhealthy { .. } => "all_origins_unhealthy"@,
    }
}

/// The name of an event's type.
pub fn event_type_name(event: &Event) -> (r: String)
    ensures
        r@ == event_name(*event),
{
    match event {
        Event::FileAccessed { .. } => "file_accessed".to_owned(),
        Event::FileAdded { .. } => "file_added".to_owned(),
        Event::FileRemoved { .. } => "file_removed".to_owned(),
        Event::FileModified { .. } => "file_modified".to_owned(),
        Event::SyncStarted { .. } => "sync_started".to_owned(),
        Event::SyncCompleted { .. } => "sync_completed".to_owned(),
        Event::OriginHealthChanged { .. } => "origin_health_changed".to_owned(),
        Event::CacheEviction { .. } => "cache_eviction".to_owned(),
        Event::OriginConnected { .. } => "origin_connected".to_owned(),
        Event::OriginDisconnected { .. } => "origin_disconnected".to_owned(),
        Event::AllOriginsUnhealthy { .. } => "all_origins_unhealthy".to_owned(),
    }
}

/// Whether a webhook wants an event: it lists no types, or lists this one.
pub fn matches_filter(event: &Event, config: &WebhookConfig) -> (r: bool)
    ensures
        r == (config.events@.len() == 0 || exists|i: int| 0 <= i < config.events@.len() && #[trigger] config.events@[i]@ == event_name(*event)),
{
    if config.events.len() == 0 {
        return true;
    }
    let name = event_type_name(event);
    let want = to_chars(name.as_str());
    let mut i: usize = 0;
    while i < config.events.len()
        invariant
            i <= config.events@.len(),
            want@ == event_name(*event),
            forall|j: int| 0 <= j < i ==> #[trigger] config.events@[j]@ != event_name(*event),
        decreases config.events@.len() - i,
    {
        if chars_eq(to_chars(config.events[i].as_str()).as_slice(), want.as_slice()) {
            return true;
        }
        i = i + 1;
    }
    false
}

/// The HMAC-SHA256 tag of `data` under `key`.
pub uninterp spec fn hmac_sha256_spec(key: Seq<u8>, data: Seq<u8>) -> Seq<u8>;

/// `Hmac::<Sha256>::new_from_slice`, `update`, `finalize`: the tag of the data under the key
/// (32 bytes). The crate's `new_from_slice` for HMAC takes keys of any length, so the
/// result is always `Some`; `None` stands for the error that its signature still allows.
#[verifier::external_body]
fn hmac_sha256(key: &[u8], data: &[u8]) -> (r: Option<Vec<u8>>)
    ensures
        r is Some,
        r.unwrap()@ == hmac_sha256_spec(key@, data@),
        r.unwrap()@.len() == 32,
{
    match <Hmac<Sha256> as Mac>::new_from_slice(key) {
        Ok(mut mac) => {
            mac.update(data);
            Some(mac.finalize().into_bytes().to_vec())
        },
        Err(_) => None,
    }
}

/// The signature header of a payload: `sha256=` and the hex of the body's HMAC-SHA256 under
/// the secret, or empty where there is no secret.
pub fn sign_body(body: &str, secret: &Option<String>) -> (r: String)
    ensures
        r@ == match secret {
            Some(s) => "sha256="@ + hex_encode(hmac_sha256_spec(vstd::utf8::encode_utf8(s@), vstd::utf8::encode_utf8(body@))),
            None => Seq::empty(),
        },
{
    match secret {
        Some(s) => {
            let tag = match hmac_sha256(s.as_str().as_bytes(), body.as_bytes()) {
                Some(t) => t,
                None => {
                    return String::new();
                },
            };
            let mut out = "sha256=".to_owned();
            let hex = encode_hex(tag.as_slice());
            append_str(&mut out, hex.as_str());
            out
        },
        None => {
            let out = String::new();
            out
        },
    }
}

/// What a failed delivery does next: stop, or wait and try again.
#[derive(Debug, Clone, Copy, PartialEq, Eq, Structural)]
pub enum RetryStep {
    GiveUp,
    RetryAfterMs(u64),
}

pub open spec fn pow2(n: nat) -> nat
    decreases n,
{
    if n == 0 {
        1
    } else {
        2 * pow2((n - 1) as nat)
    }
}

/// After attempt number `attempts` (from 0) failed: give up once all retries are spent,
/// else wait `100 * 2^(attempts + 1)` ms.
pub fn retry_step(attempts: u32, retry_count: u32) -> (r: RetryStep)
    requires
        attempts >= retry_count || attempts < 57,
    ensures
        r == (if attempts >= retry_count {
            RetryStep::GiveUp
        } else {
            RetryStep::RetryAfterMs((100 * pow2((attempts + 1) as nat)) as u64)
        }),
{
    if attempts >= retry_count {
        return RetryStep::GiveUp;
    }
    let next = attempts + 1;
    let mut p: u64 = 1;
    let mut k: u32 = 0;
    while k < next
        invariant
            k <= next,
            next <= 57,
            p == pow2(k as nat),
            p <= 0x0200_0000_0000_0000,
        decreases next - k,
    {
        proof {
            lemma_pow2_bound((k + 1) as nat);
        }
        p = p * 2;
        k = k + 1;
    }
    proof {
        lemma_pow2_bound(next as nat);
    }
    RetryStep::RetryAfterMs(100 * p)
}

proof fn lemma_pow2_bound(n: nat)
    requires
        n <= 57,
    ensures
        pow2(n) <= 0x0200_0000_0000_0000,
{
    reveal_with_fuel(pow2, 58);
    assert(pow2(57) == 0x0200_0000_0000_0000);
    lemma_pow2_monotone(n, 57);
}

proof fn lemma_pow2_monotone(a: nat, b: nat)
    requires
        a <= b,
    ensures
        pow2(a) <= pow2(b),
    decreases b,
{
    if a < b {
        lemma_pow2_monotone(a, (b - 1) as nat);
    }
}

} // verus!
