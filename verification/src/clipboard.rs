//! Clipboard content, its normalisation and hash, and the decisions taken when
//! the local clipboard changes or remote content is written to it.

use vstd::prelude::*;
use vstd::utf8::encode_utf8;
use crate::crypto::{blake3_hash, is_uuid_v4_text, new_message_id, spec_blake3};
use crate::hex::hex_text;
use crate::protocol::Message;
use crate::recent::{spec_expire, spec_expire_deadlines, spec_recent_contains, spec_recent_put, TimedKeys};
use crate::text::{all_ws, opt_chars, is_blank, normalize_newlines, spec_strip_html};

verus! {

broadcast use vstd::string::group_string_axioms;

/// How long the same local content is not sent again, in milliseconds.
pub const LOCAL_REPEAT_WINDOW_MS: i64 = 30_000;

/// How long clipboard changes caused by writing remote content are ignored, in
/// milliseconds.
pub const SUPPRESS_AFTER_WRITE_MS: i64 = 3_500;

/// Clipboard content: plain text and, for rich content, HTML.
#[derive(Clone, Debug)]
pub struct ClipContent {
    pub text: Option<String>,
    pub html: Option<String>,
}

impl Default for ClipContent {
    fn default() -> (r: ClipContent)
        ensures
            r.text is None,
            r.html is None,
    {
        ClipContent { text: None, html: None }
    }
}

/// The content kind `"text"`.
pub open spec fn kind_text() -> Seq<char> {
    seq!['t', 'e', 'x', 't']
}

/// The content kind `"html"`.
pub open spec fn kind_html() -> Seq<char> {
    seq!['h', 't', 'm', 'l']
}

/// The string `"text"`.
pub fn text_kind() -> (s: String)
    ensures
        s@ == kind_text(),
{
    proof {
        reveal_strlit("text");
    }
    String::from_str("text")
}

/// The string `"html"`.
pub fn html_kind() -> (s: String)
    ensures
        s@ == kind_html(),
{
    proof {
        reveal_strlit("html");
    }
    String::from_str("html")
}

/// Normalises line endings so that both ends hash the same text: every `"\r\n"`
/// becomes `"\n"`.
pub fn normalized_text(text: &str) -> (out: String)
    ensures
        out@ == normalize_newlines(text@),
{
    crate::text::normalize_newlines_of(text)
}

/// The content hash: BLAKE3 over the UTF-8 of the kind, a zero byte and the UTF-8
/// of the normalised text, in lower-case hexadecimal.
pub open spec fn spec_content_hash(kind: Seq<char>, normalized: Seq<char>) -> Seq<char> {
    hex_text(spec_blake3(encode_utf8(kind) + seq![0u8] + encode_utf8(normalized)))
}

/// The hash that identifies clipboard content across devices.
pub fn content_hash(kind: &str, normalized: &str) -> (h: String)
    ensures
        h@ == spec_content_hash(kind@, normalized@),
        h@.len() == 64,
{
    let mut input = crate::bytes::to_vec(kind.as_bytes());
    input.push(0u8);
    let ghost first = input@;
    assert(first =~= encode_utf8(kind@) + seq![0u8]);
    crate::bytes::append_bytes(&mut input, normalized.as_bytes());
    assert(input@ =~= encode_utf8(kind@) + seq![0u8] + encode_utf8(normalized@));
    let digest = blake3_hash(input.as_slice());
    crate::hex::encode(&digest)
}

/// Plain text of an HTML fragment (tags removed, whitespace collapsed).
pub fn strip_html(html: &str) -> (out: String)
    ensures
        out@ == spec_strip_html(html@),
{
    crate::text::strip_html(html)
}

/// An optional text with blank values (empty once trimmed) dropped.
pub open spec fn non_blank(s: Option<Seq<char>>) -> Option<Seq<char>> {
    match s {
        Some(t) => if all_ws(t) {
            None
        } else {
            Some(t)
        },
        None => None,
    }
}

fn non_blank_of(s: Option<String>) -> (r: Option<String>)
    ensures
        r matches Some(t) ==> s matches Some(u) && t@ == u@ && !all_ws(u@),
        r is None ==> (s is None || all_ws(s->0@)),
{
    match s {
        Some(t) => if is_blank(t.as_str()) {
            None
        } else {
            Some(t)
        },
        None => None,
    }
}

/// What the clipboard holds, from the text and HTML read from it: blank values
/// are ignored; with HTML, the text is the plain-text version or, lacking one,
/// the HTML stripped of tags; with neither, nothing.
pub fn clip_from_clipboard(text: Option<String>, html: Option<String>) -> (r: Option<ClipContent>)
    ensures
        non_blank(opt_chars(html)) is Some ==> (r matches Some(c) && c.html is Some
            && c.text is Some && Some(c.html->0@) == non_blank(opt_chars(html)) && (if non_blank(
            opt_chars(text),
        ) is Some {
            Some(c.text->0@) == non_blank(opt_chars(text))
        } else {
            c.text->0@ == spec_strip_html(c.html->0@)
        })),
        non_blank(opt_chars(html)) is None && non_blank(opt_chars(text)) is Some ==> (
        r matches Some(c) && c.html is None && c.text is Some && Some(c.text->0@) == non_blank(
            opt_chars(text),
        )),
        non_blank(opt_chars(html)) is None && non_blank(opt_chars(text)) is None
            ==> r is None,
{
    let text_opt = non_blank_of(text);
    let html_opt = non_blank_of(html);
    match (html_opt, text_opt) {
        (Some(h), t) => {
            let text = match t {
                Some(t) => t,
                None => strip_html(h.as_str()),
            };
            Some(ClipContent { text: Some(text), html: Some(h) })
        },
        (None, Some(t)) => Some(ClipContent { text: Some(t), html: None }),
        (None, None) => None,
    }
}

/// How content is written to the local clipboard.
#[derive(Clone, Debug)]
pub enum WritePlan {
    /// Set HTML, with the plain text as its alternative when there is any.
    Html { html: String, alt_text: Option<String> },
    /// Set plain text.
    Text(String),
}

/// Why content cannot be written to the clipboard.
#[derive(Clone, Copy, Debug, PartialEq, Eq, Structural)]
pub enum WriteError {
    /// Neither HTML nor non-blank text.
    Empty,
}

/// What writing `content` to the clipboard does: HTML (with the text as its
/// alternative unless blank) when there is HTML, else the text unless blank, else
/// nothing to write.
pub fn write_plan(content: &ClipContent) -> (r: Result<WritePlan, WriteError>)
    ensures
        content.html matches Some(h) ==> r matches Ok(WritePlan::Html { html, alt_text }) && html@
            == h@ && (match content.text {
            Some(t) => if all_ws(t@) {
                alt_text is None
            } else {
                alt_text matches Some(a) && a@ == t@
            },
            None => alt_text is None,
        }),
        content.html is None && content.text is Some && !all_ws(content.text->0@) ==> (r matches Ok(
            WritePlan::Text(s)) && s@ == content.text->0@),
        content.html is None && (content.text is None || all_ws(content.text->0@)) ==> r == Err::<
            WritePlan,
            WriteError,
        >(WriteError::Empty),
{
    let text: String = match &content.text {
        Some(t) => t.clone(),
        None => String::new(),
    };
    let blank = is_blank(text.as_str());
    match &content.html {
        Some(h) => {
            let alt_text = if blank {
                None
            } else {
                Some(text)
            };
            Ok(WritePlan::Html { html: h.clone(), alt_text })
        },
        None => {
            if !blank {
                Ok(WritePlan::Text(text))
            } else {
                Err(WriteError::Empty)
            }
        },
    }
}

/// The hash maps that keep clipboard echoes and duplicates out.
pub struct EchoGuard {
    /// Hashes whose local clipboard changes are ignored, with the deadline.
    pub suppress: TimedKeys,
    /// Hashes of content recently copied locally.
    pub recent_local: TimedKeys,
    /// Hashes of content recently sent.
    pub recent_sent: TimedKeys,
    /// Ids of messages already handled.
    pub processed_msgs: TimedKeys,
}

impl EchoGuard {
    /// All four maps are well formed.
    pub open spec fn wf(&self) -> bool {
        &&& self.suppress.wf()
        &&& self.recent_local.wf()
        &&& self.recent_sent.wf()
        &&& self.processed_msgs.wf()
    }

    /// Empty maps.
    pub fn new() -> (r: EchoGuard)
        ensures
            r.wf(),
            r.suppress.view() == Map::<Seq<char>, i64>::empty(),
            r.recent_local.view() == Map::<Seq<char>, i64>::empty(),
            r.recent_sent.view() == Map::<Seq<char>, i64>::empty(),
            r.processed_msgs.view() == Map::<Seq<char>, i64>::empty(),
    {
        EchoGuard {
            suppress: TimedKeys::new(),
            recent_local: TimedKeys::new(),
            recent_sent: TimedKeys::new(),
            processed_msgs: TimedKeys::new(),
        }
    }
}

/// The fields of a clipboard push built from local content.
pub open spec fn is_local_push(
    msg: Message,
    msg_id: Seq<char>,
    sender_id: Seq<char>,
    text: Seq<char>,
    html: Option<Seq<char>>,
    hash: Seq<char>,
    now: i64,
) -> bool {
    msg matches Message::ClipboardPush {
        msg_id: m,
        sender_id: s,
        content_type: ct,
        content,
        alt_text,
        content_hash: h,
        timestamp_ms,
    } && m@ == msg_id && s@ == sender_id && h@ == hash && timestamp_ms == now && match html {
        Some(hh) => ct@ == kind_html() && content@ == encode_utf8(hh) && alt_text is Some
            && alt_text->0@ == text,
        None => ct@ == kind_text() && content@ == encode_utf8(text) && alt_text is None,
    }
}

/// The decision on locally copied `content` at `now`, from guard `g0` to `g1`
/// with result `r`. Blank or absent text or a paused watcher leaves everything as
/// it was. Otherwise expired suppressions are dropped; a hash still suppressed
/// (content this device just wrote) or copied within the last 30 seconds gives
/// `None`; else the hash is recorded as copied and sent at `now` and the push to
/// broadcast is returned, under message id `msg_id`.
pub open spec fn local_clipboard_step(
    g0: EchoGuard,
    g1: EchoGuard,
    watch_enabled: bool,
    content: ClipContent,
    now: i64,
    msg_id: Seq<char>,
    sender_id: Seq<char>,
    r: Option<Message>,
) -> bool {
    &&& g1.processed_msgs == g0.processed_msgs
    &&& (content.text is None || all_ws(content.text->0@) || !watch_enabled) ==> r is None && g1 == g0
    &&& content.text is Some && !all_ws(content.text->0@) && watch_enabled ==> {
        let t = content.text->0;
        let h = spec_content_hash(kind_text(), normalize_newlines(t@));
        &&& g1.suppress.view() == spec_expire_deadlines(g0.suppress.view(), now)
        &&& if spec_expire_deadlines(g0.suppress.view(), now).contains_key(h) {
            r is None && g1.recent_local == g0.recent_local && g1.recent_sent == g0.recent_sent
        } else if spec_recent_contains(g0.recent_local.view(), h, now, LOCAL_REPEAT_WINDOW_MS) {
            r is None && g1.recent_local.view() == spec_expire(g0.recent_local.view(), now)
                && g1.recent_sent == g0.recent_sent
        } else {
            &&& g1.recent_local.view() == spec_recent_put(g0.recent_local.view(), h, now)
            &&& g1.recent_sent.view() == spec_recent_put(g0.recent_sent.view(), h, now)
            &&& r matches Some(m) && is_local_push(m, msg_id, sender_id, t@, opt_chars(content.html), h, now)
        }
    }
}

/// The user copied `content` locally: the decision of [`local_clipboard_step`],
/// with the given message id.
pub fn handle_local_clipboard(
    guard: &mut EchoGuard,
    watch_enabled: bool,
    content: &ClipContent,
    now: i64,
    msg_id: String,
    sender_id: String,
) -> (r: Option<Message>)
    requires
        old(guard).wf(),
    ensures
        final(guard).wf(),
        local_clipboard_step(*old(guard), *final(guard), watch_enabled, *content, now, msg_id@, sender_id@, r),
{
    let text: String = match &content.text {
        Some(t) => {
            if is_blank(t.as_str()) {
                return None;
            }
            t.clone()
        },
        None => {
            return None;
        },
    };
    if !watch_enabled {
        return None;
    }
    let kind = text_kind();
    let normalized = normalized_text(text.as_str());
    let hash = content_hash(kind.as_str(), normalized.as_str());
    if guard.suppress.is_suppressed(hash.as_str(), now) {
        return None;
    }
    let ghost local0 = guard.recent_local.view();
    if guard.recent_local.recent_contains(hash.as_str(), now, LOCAL_REPEAT_WINDOW_MS) {
        return None;
    }
    guard.recent_local.recent_put(hash.as_str(), now);
    guard.recent_sent.recent_put(hash.as_str(), now);
    assert(spec_recent_put(spec_expire(local0, now), hash@, now) =~= spec_recent_put(local0, hash@, now));
    let (content_type, body, alt_text) = match &content.html {
        Some(h) => (html_kind(), crate::bytes::to_vec(h.as_str().as_bytes()), Some(text)),
        None => (text_kind(), crate::bytes::to_vec(text.as_str().as_bytes()), None),
    };
    Some(
        Message::ClipboardPush {
            msg_id,
            sender_id,
            content_type,
            content: body,
            alt_text,
            content_hash: hash,
            timestamp_ms: now,
        },
    )
}

/// The user copied `content` locally: the decision of [`local_clipboard_step`],
/// under a fresh random message id (a version-4 UUID in hyphenated form).
pub fn local_clipboard_push(
    guard: &mut EchoGuard,
    watch_enabled: bool,
    content: &ClipContent,
    now: i64,
    sender_id: String,
) -> (r: Option<Message>)
    requires
        old(guard).wf(),
    ensures
        final(guard).wf(),
        exists|id: Seq<char>|
            is_uuid_v4_text(id) && #[trigger] local_clipboard_step(
                *old(guard),
                *final(guard),
                watch_enabled,
                *content,
                now,
                id,
                sender_id@,
                r,
            ),
{
    let msg_id = new_message_id();
    let ghost id = msg_id@;
    let r = handle_local_clipboard(guard, watch_enabled, content, now, msg_id, sender_id);
    assert(is_uuid_v4_text(id));
    r
}

/// The hash of the polled content when it is a change: non-blank text whose hash
/// differs from `last`, the hash of the last text reacted to.
pub open spec fn poll_change(content: ClipContent, last: Seq<char>) -> Option<Seq<char>> {
    match content.text {
        Some(t) => if all_ws(t@) {
            None
        } else {
            let h = spec_content_hash(kind_text(), normalize_newlines(t@));
            if h != last {
                Some(h)
            } else {
                None
            }
        },
        None => None,
    }
}

/// One poll of the clipboard: on a change (see [`poll_change`]) the new hash is
/// kept and the content handed on; otherwise `last` stays.
pub fn poll_step(last: &str, content: &ClipContent) -> (r: (String, bool))
    ensures
        match poll_change(*content, last@) {
            Some(h) => r.0@ == h && r.1,
            None => r.0@ == last@ && !r.1,
        },
{
    match &content.text {
        Some(t) => {
            if is_blank(t.as_str()) {
                return (last.to_owned(), false);
            }
            let kind = text_kind();
            let normalized = normalized_text(t.as_str());
            let h = content_hash(kind.as_str(), normalized.as_str());
            let prev = last.to_owned();
            if h == prev {
                (prev, false)
            } else {
                (h, true)
            }
        },
        None => (last.to_owned(), false),
    }
}

/// Bookkeeping before remote content with hash `hash` is written to the local
/// clipboard at `now`: the hash is suppressed until 3.5 seconds later and counted
/// as recently copied, so that the resulting clipboard change is not sent back.
pub fn write_remote_clipboard(guard: &mut EchoGuard, hash: &str, now: i64)
    requires
        old(guard).wf(),
        now <= i64::MAX - SUPPRESS_AFTER_WRITE_MS,
    ensures
        final(guard).wf(),
        final(guard).suppress.view() == old(guard).suppress.view().insert(
            hash@,
            (now + SUPPRESS_AFTER_WRITE_MS) as i64,
        ),
        final(guard).recent_local.view() == spec_recent_put(old(guard).recent_local.view(), hash@, now),
        final(guard).recent_sent == old(guard).recent_sent,
        final(guard).processed_msgs == old(guard).processed_msgs,
{
    guard.suppress.insert(hash, now + SUPPRESS_AFTER_WRITE_MS);
    guard.recent_local.recent_put(hash, now);
}

/// Content written from a peer is not sent back: after [`write_remote_clipboard`]
/// for hash `h` at `t0` (guard `g0` to `g1`), the local change it causes, seen
/// within 30 seconds with text of hash `h`, gives no push and leaves the
/// sent-hash record as it was.
pub proof fn lemma_written_content_not_echoed(
    g0: EchoGuard,
    g1: EchoGuard,
    g2: EchoGuard,
    h: Seq<char>,
    t0: i64,
    watch_enabled: bool,
    content: ClipContent,
    now: i64,
    msg_id: Seq<char>,
    sender_id: Seq<char>,
    r: Option<Message>,
)
    requires
        g1.recent_local.view() == spec_recent_put(g0.recent_local.view(), h, t0),
        g1.recent_sent == g0.recent_sent,
        t0 <= now,
        now - t0 < LOCAL_REPEAT_WINDOW_MS,
        content.text matches Some(t) && spec_content_hash(kind_text(), normalize_newlines(t@)) == h,
        local_clipboard_step(g1, g2, watch_enabled, content, now, msg_id, sender_id, r),
    ensures
        r is None,
        g2.recent_sent == g0.recent_sent,
{
    crate::recent::lemma_put_then_contains(g0.recent_local.view(), h, t0, now, LOCAL_REPEAT_WINDOW_MS);
}

} // verus!
