//! The Anthropic-style variant: messages-endpoint request construction,
//! reply extraction, and the stream decoder for its `data:` event framing
//! with typed events.

use vstd::prelude::*;

use crate::errors::ChatError;
use crate::json_render::dec_digits;
use crate::json_render::json_escaped;
use crate::json_render::push_escaped;
use crate::json_render::push_temp;
use crate::json_render::push_u32;
use crate::json_render::temp_digits;
use crate::message::ChatMessage;
use crate::message::ChatRequestOptions;
use crate::message::MessageRole;
use crate::request::collect_system_texts;
use crate::request::folded_system;
use crate::request::join_sep;
use crate::request::join_sep_exec;
use crate::request::opt_str_view;
use crate::request::opt_string_view;
use crate::request::select_model;
use crate::request::selected_model;
use crate::sse::done_marker;
use crate::sse::sse_finish_spec;
use crate::sse::sse_run;
use crate::sse::SseDecoder;
use crate::text::all_ws;
use crate::text::chars_eq;
use crate::text::chars_string;
use crate::text::find_non_ws;
use crate::text::push_all;
use crate::text::str_chars;
use crate::text::string_views;
use crate::text::subrange_vec;
use crate::text::trim_chars;
use crate::text::trim_spec;
use crate::text::views_of;

verus! {

/// What one parsed stream event holds: its type, the text of its delta, and
/// the text of its opening content block, where they are present.
pub uninterp spec fn anthropic_event_of(payload: Seq<char>) -> Option<
    (Seq<char>, Option<Seq<char>>, Option<Seq<char>>),
>;

/// What one parsed non-streaming reply holds, one entry per content block:
/// the block's type and its text, where it has one.
pub uninterp spec fn anthropic_reply_of(body: Seq<char>) -> Option<
    Seq<(Seq<char>, Option<Seq<char>>)>,
>;

/// One typed stream event, as far as the decoder reads it.
#[derive(Clone, Debug)]
pub struct AnthropicStreamEvent {
    pub event_type: Vec<char>,
    pub delta_text: Option<Vec<char>>,
    pub block_text: Option<Vec<char>>,
}

/// The view of a stream event.
pub open spec fn event_view(e: AnthropicStreamEvent) -> (Seq<char>, Option<Seq<char>>, Option<
    Seq<char>,
>) {
    (
        e.event_type@,
        match e.delta_text {
            Some(t) => Some(t@),
            None => None,
        },
        match e.block_text {
            Some(t) => Some(t@),
            None => None,
        },
    )
}

/// One content block of a non-streaming reply.
#[derive(Clone, Debug)]
pub struct AnthropicContentBlock {
    pub kind: Vec<char>,
    pub text: Option<Vec<char>>,
}

/// The view of a content block.
pub open spec fn block_view(b: AnthropicContentBlock) -> (Seq<char>, Option<Seq<char>>) {
    (
        b.kind@,
        match b.text {
            Some(t) => Some(t@),
            None => None,
        },
    )
}

/// The views of a block list.
pub open spec fn block_views(bs: Seq<AnthropicContentBlock>) -> Seq<(Seq<char>, Option<Seq<char>>)> {
    bs.map_values(|b: AnthropicContentBlock| block_view(b))
}

/// Relies on serde_json::from_str, serde_json::Value indexing (which answers
/// Null for anything absent) and its accessors: parses one
/// stream event into its type and texts. The result is a function of the
/// payload text alone.
#[verifier::external_body]
fn parse_anthropic_event(payload: &str) -> (r: Result<AnthropicStreamEvent, ()>)
    ensures
        match r {
            Ok(e) => anthropic_event_of(payload@) == Some(event_view(e)),
            Err(_) => anthropic_event_of(payload@) is None,
        },
{
    let v: serde_json::Value = match serde_json::from_str(payload) { Ok(v) => v, Err(_) => return Err(()) };
    let event_type = match v["type"].as_str() {
        Some(t) => t.chars().collect(),
        None => return Err(()),
    };
    let delta_text = v["delta"]["text"].as_str().map(|s| s.chars().collect());
    let block_text = v["content_block"]["text"].as_str().map(|s| s.chars().collect());
    Ok(AnthropicStreamEvent { event_type, delta_text, block_text })
}

/// Relies on serde_json::from_str, serde_json::Value indexing (which answers
/// Null for anything absent) and its accessors: parses one
/// non-streaming reply into its content blocks. The result is a function of
/// the body text alone.
#[verifier::external_body]
fn parse_anthropic_reply(body: &str) -> (r: Result<Vec<AnthropicContentBlock>, ()>)
    ensures
        match r {
            Ok(bs) => anthropic_reply_of(body@) == Some(block_views(bs@)),
            Err(_) => anthropic_reply_of(body@) is None,
        },
{
    let v: serde_json::Value = match serde_json::from_str(body) { Ok(v) => v, Err(_) => return Err(()) };
    let arr = match v["content"].as_array() { Some(a) => a, None => return Err(()) };
    let block = |b: &serde_json::Value, k: &str| AnthropicContentBlock {
        kind: k.chars().collect(),
        text: b["text"].as_str().map(|s| s.chars().collect()),
    };
    arr.iter().map(|b| b["type"].as_str().map(|k| block(b, k)).ok_or(())).collect()
}

/// A whole non-streaming reply: its content blocks.
#[derive(Clone, Debug)]
pub struct AnthropicMessageResponse {
    pub content: Vec<AnthropicContentBlock>,
}

/// The concatenation of the block texts, in order.
pub open spec fn blocks_text(blocks: Seq<(Seq<char>, Option<Seq<char>>)>) -> Seq<char>
    decreases blocks.len(),
{
    if blocks.len() == 0 {
        Seq::empty()
    } else {
        blocks_text(blocks.drop_last()) + (match blocks.last().1 {
            Some(t) => t,
            None => Seq::empty(),
        })
    }
}

/// The merged reply text: the blocks' texts concatenated, unless that is
/// blank.
pub open spec fn merged_text_spec(blocks: Seq<(Seq<char>, Option<Seq<char>>)>) -> Option<
    Seq<char>,
> {
    let t = blocks_text(blocks);
    if all_ws(t) {
        None
    } else {
        Some(t)
    }
}

impl AnthropicMessageResponse {
    /// Concatenate the text of every content block; a blank result counts as
    /// no text.
    pub fn merged_text(&self) -> (r: Option<Vec<char>>)
        ensures
            match r {
                Some(t) => merged_text_spec(block_views(self.content@)) == Some(t@),
                None => merged_text_spec(block_views(self.content@)) is None,
            },
    {
        let mut out: Vec<char> = Vec::new();
        let n: usize = self.content.len();
        let mut i: usize = 0;
        while i < n
            invariant
                0 <= i <= n,
                n == self.content@.len(),
                out@ == blocks_text(block_views(self.content@.take(i as int))),
            decreases n - i,
        {
            proof {
                assert(block_views(self.content@.take(i + 1 as int)).drop_last() =~= block_views(
                    self.content@.take(i as int),
                ));
                assert(block_views(self.content@.take(i + 1 as int)).last() == block_view(
                    self.content@[i as int],
                ));
            }
            match &self.content[i].text {
                Some(t) => {
                    push_all(&mut out, t.as_slice());
                },
                None => {},
            }
            assert(out@ =~= blocks_text(block_views(self.content@.take(i + 1 as int))));
            i = i + 1;
        }
        proof {
            assert(self.content@.take(n as int) =~= self.content@);
        }
        let start = find_non_ws(out.as_slice(), 0);
        if start == out.len() {
            proof {
                crate::text::lemma_skip_ws_bounds(out@, 0);
            }
            None
        } else {
            proof {
                crate::text::lemma_skip_ws_bounds(out@, 0);
                assert(!crate::text::is_ws(out@[start as int]));
                assert(!all_ws(out@));
            }
            Some(out)
        }
    }
}

/// Extract the reply text from a 2xx response body: the concatenated block
/// texts, unless blank; anything else is a malformed response.
pub fn anthropic_chat_text(body: &str) -> (r: Result<String, ChatError>)
    ensures
        match r {
            Ok(s) => match anthropic_reply_of(body@) {
                Some(bs) => merged_text_spec(bs) == Some(s@),
                None => false,
            },
            Err(e) => e is MalformedResponse && match anthropic_reply_of(body@) {
                Some(bs) => merged_text_spec(bs) is None,
                None => true,
            },
        },
{
    match parse_anthropic_reply(body) {
        Err(_) => Err(ChatError::MalformedResponse),
        Ok(content) => {
            let response = AnthropicMessageResponse { content };
            match response.merged_text() {
                Some(t) => Ok(chars_string(t.as_slice())),
                None => Err(ChatError::MalformedResponse),
            }
        },
    }
}

/// One chat message in the wire schema of this vendor.
#[derive(Clone, Debug)]
pub struct AnthropicMessage {
    pub role: String,
    pub content: Vec<AnthropicContent>,
}

/// One content item of a wire message.
#[derive(Clone, Debug)]
pub struct AnthropicContent {
    pub kind: String,
    pub text: String,
}

impl AnthropicContent {
    /// A plain text content item.
    pub fn text(text: String) -> (c: AnthropicContent)
        ensures
            c.kind@ == "text"@,
            c.text@ == text@,
    {
        AnthropicContent { kind: "text".to_owned(), text }
    }
}

/// The wire role of a turn: assistant turns keep their role; anything else,
/// a system message included, is remapped to the user role rather than
/// silently dropped.
pub open spec fn anthropic_role(r: MessageRole) -> Seq<char> {
    match r {
        MessageRole::User => "user"@,
        MessageRole::Assistant => "assistant"@,
        MessageRole::System => "user"@,
    }
}

impl AnthropicMessage {
    /// Convert one conversation turn into the wire schema.
    pub fn from_chat(message: &ChatMessage) -> (m: AnthropicMessage)
        ensures
            m.role@ == anthropic_role(message.role),
            m.content@.len() == 1,
            m.content@[0].kind@ == "text"@,
            m.content@[0].text@ == message.content@,
    {
        let role = match message.role {
            MessageRole::User => "user",
            MessageRole::Assistant => "assistant",
            MessageRole::System => "user",
        };
        let mut content: Vec<AnthropicContent> = Vec::new();
        content.push(AnthropicContent::text(message.content.clone()));
        AnthropicMessage { role: role.to_owned(), content }
    }
}

/// The turns sent on the wire: every non-system message, in order, under its
/// wire role, with its text as a single content item.
pub open spec fn anthropic_turns(msgs: Seq<ChatMessage>) -> Seq<(Seq<char>, Seq<char>)>
    decreases msgs.len(),
{
    if msgs.len() == 0 {
        Seq::empty()
    } else {
        anthropic_turns(msgs.drop_last()) + (if msgs.last().role is System {
            Seq::empty()
        } else {
            seq![(anthropic_role(msgs.last().role), msgs.last().content@)]
        })
    }
}

/// One wire message as a JSON object.
pub open spec fn msg_obj_json(role: Seq<char>, text: Seq<char>) -> Seq<char> {
    "{\"role\":\""@ + role + "\",\"content\":[{\"type\":\"text\",\"text\":\""@ + json_escaped(text)
        + "\"}]}"@
}

/// The max-tokens value sent: the caller's, defaulting to 1024 when unset,
/// and never below 1.
pub open spec fn anthropic_max_tokens(opt: Option<u32>) -> u32 {
    let m = match opt {
        Some(v) => v,
        None => 1024u32,
    };
    if m < 1 {
        1u32
    } else {
        m
    }
}

/// The system field sent: the folded system texts newline-joined, absent
/// when there are none.
pub open spec fn anthropic_system(system: Option<Seq<char>>, msgs: Seq<ChatMessage>) -> Option<
    Seq<char>,
> {
    let texts = folded_system(system, msgs);
    if texts.len() == 0 {
        None
    } else {
        Some(join_sep(texts, "\n"@))
    }
}

/// The whole request body. The system field and the temperature are left off
/// the wire entirely when unset.
pub open spec fn anthropic_request_spec(
    model: Seq<char>,
    max_tokens: u32,
    system: Option<Seq<char>>,
    turns: Seq<(Seq<char>, Seq<char>)>,
    temperature: Option<u32>,
    stream: bool,
) -> Seq<char> {
    "{\"model\":\""@ + json_escaped(model) + "\",\"max_tokens\":"@ + dec_digits(max_tokens as int)
        + (match system {
        Some(s) => ",\"system\":\""@ + json_escaped(s) + "\""@,
        None => Seq::empty(),
    }) + ",\"messages\":["@ + join_sep(
        turns.map_values(|p: (Seq<char>, Seq<char>)| msg_obj_json(p.0, p.1)),
        ","@,
    ) + "]"@ + (match temperature {
        Some(t) => ",\"temperature\":"@ + temp_digits(t as int),
        None => Seq::empty(),
    }) + ",\"stream\":"@ + (if stream {
        "true"@
    } else {
        "false"@
    }) + "}"@
}

/// The fallback model id of this vendor.
pub open spec fn anthropic_fallback_model() -> Seq<char> {
    "sonnet-3-20240229"@
}

fn render_turn(m: &AnthropicMessage) -> (r: Vec<char>)
    requires
        m.content@.len() == 1,
        m.content@[0].kind@ == "text"@,
    ensures
        r@ == msg_obj_json(m.role@, m.content@[0].text@),
{
    let mut out = str_chars("{\"role\":\"");
    push_all(&mut out, str_chars(m.role.as_str()).as_slice());
    push_all(&mut out, str_chars("\",\"content\":[{\"type\":\"text\",\"text\":\"").as_slice());
    push_escaped(&mut out, str_chars(m.content[0].text.as_str()).as_slice());
    push_all(&mut out, str_chars("\"}]}").as_slice());
    assert(out@ =~= msg_obj_json(m.role@, m.content@[0].text@));
    out
}

/// Build the JSON request body for one chat call.
pub fn build_anthropic_request(
    model: &str,
    default_model: &Option<String>,
    system: Option<&str>,
    messages: &Vec<ChatMessage>,
    options: &ChatRequestOptions,
    stream: bool,
) -> (r: String)
    ensures
        r@ == anthropic_request_spec(
            selected_model(model@, opt_string_view(*default_model), anthropic_fallback_model()),
            anthropic_max_tokens(options.max_output_tokens),
            anthropic_system(opt_str_view(system), messages@),
            anthropic_turns(messages@),
            options.temperature,
            stream,
        ),
{
    let chosen = select_model(model, default_model, "sonnet-3-20240229");
    let max_tokens_given = match options.max_output_tokens {
        Some(v) => v,
        None => 1024,
    };
    let max_tokens = if max_tokens_given < 1 {
        1
    } else {
        max_tokens_given
    };
    let sys_texts = collect_system_texts(system, messages);
    let mut items: Vec<Vec<char>> = Vec::new();
    let n: usize = messages.len();
    let mut i: usize = 0;
    while i < n
        invariant
            0 <= i <= n,
            n == messages@.len(),
            views_of(items@) == anthropic_turns(messages@.take(i as int)).map_values(
                |p: (Seq<char>, Seq<char>)| msg_obj_json(p.0, p.1),
            ),
        decreases n - i,
    {
        proof {
            assert(messages@.take(i + 1 as int).drop_last() =~= messages@.take(i as int));
            assert(messages@.take(i + 1 as int).last() == messages@[i as int]);
        }
        let m = &messages[i];
        if !matches!(m.role, MessageRole::System) {
            let wire = AnthropicMessage::from_chat(m);
            let ghost items0 = views_of(items@);
            items.push(render_turn(&wire));
            proof {
                assert(views_of(items@) =~= items0.push(
                    msg_obj_json(
                        anthropic_role(messages@[i as int].role),
                        messages@[i as int].content@,
                    ),
                ));
                assert(views_of(items@) =~= anthropic_turns(
                    messages@.take(i + 1 as int),
                ).map_values(|p: (Seq<char>, Seq<char>)| msg_obj_json(p.0, p.1)));
            }
        } else {
            proof {
                assert(views_of(items@) =~= anthropic_turns(
                    messages@.take(i + 1 as int),
                ).map_values(|p: (Seq<char>, Seq<char>)| msg_obj_json(p.0, p.1)));
            }
        }
        i = i + 1;
    }
    proof {
        assert(messages@.take(n as int) =~= messages@);
    }
    let joined = join_sep_exec(&items, str_chars(",").as_slice());
    let mut out = str_chars("{\"model\":\"");
    push_escaped(&mut out, chosen.as_slice());
    push_all(&mut out, str_chars("\",\"max_tokens\":").as_slice());
    push_u32(&mut out, max_tokens);
    if sys_texts.len() > 0 {
        push_all(&mut out, str_chars(",\"system\":\"").as_slice());
        let joined_sys = join_sep_exec(&sys_texts, str_chars("\n").as_slice());
        push_escaped(&mut out, joined_sys.as_slice());
        push_all(&mut out, str_chars("\"").as_slice());
    }
    push_all(&mut out, str_chars(",\"messages\":[").as_slice());
    push_all(&mut out, joined.as_slice());
    push_all(&mut out, str_chars("]").as_slice());
    match options.temperature {
        Some(t) => {
            push_all(&mut out, str_chars(",\"temperature\":").as_slice());
            push_temp(&mut out, t);
        },
        None => {},
    }
    push_all(&mut out, str_chars(",\"stream\":").as_slice());
    if stream {
        push_all(&mut out, str_chars("true").as_slice());
    } else {
        push_all(&mut out, str_chars("false").as_slice());
    }
    push_all(&mut out, str_chars("}").as_slice());
    proof {
        assert(out@ =~= anthropic_request_spec(
            selected_model(model@, opt_string_view(*default_model), anthropic_fallback_model()),
            anthropic_max_tokens(options.max_output_tokens),
            anthropic_system(opt_str_view(system), messages@),
            anthropic_turns(messages@),
            options.temperature,
            stream,
        ));
    }
    chars_string(out.as_slice())
}

/// The settings a running variant needs, resolved at construction.
#[derive(Clone, Debug)]
pub struct AnthropicSettings {
    pub api_key: String,
    pub base_url: String,
}

/// The default base endpoint of this vendor.
pub open spec fn anthropic_default_base() -> Seq<char> {
    "https://api.anthropic.com"@
}

/// Resolve the construction-time settings: an API key is required, and the
/// base URL falls back to the vendor's own.
pub fn anthropic_settings(config: &crate::config::ApiKeyProviderConfig) -> (r: Result<
    AnthropicSettings,
    ChatError,
>)
    ensures
        match r {
            Ok(st) => config.api_key matches Some(k) && st.api_key@ == k@ && st.base_url@ == (
            match config.base_url {
                Some(b) => b@,
                None => anthropic_default_base(),
            }),
            Err(e) => config.api_key is None && e is Auth,
        },
{
    let api_key = match &config.api_key {
        Some(k) => k.clone(),
        None => {
            return Err(ChatError::Auth);
        },
    };
    let base_url = match &config.base_url {
        Some(b) => b.clone(),
        None => "https://api.anthropic.com".to_owned(),
    };
    Ok(AnthropicSettings { api_key, base_url })
}

/// The messages endpoint under a base URL, trailing slashes dropped.
pub fn anthropic_endpoint(base_url: &str) -> (r: String)
    ensures
        r@ == crate::text::trim_slash_end(base_url@) + "/v1/messages"@,
{
    let mut out = crate::text::trim_trailing_slashes(base_url);
    push_all(&mut out, str_chars("/v1/messages").as_slice());
    chars_string(out.as_slice())
}

/// The protocol version header value this vendor requires.
pub fn anthropic_version() -> (r: &'static str)
    ensures
        r@ == "2023-06-01"@,
{
    "2023-06-01"
}

/// The text one typed event carries: only a `content_block_delta` or
/// `content_block_start` event does.
pub open spec fn anthropic_fragment(ev: (Seq<char>, Option<Seq<char>>, Option<Seq<char>>)) -> Option<
    Seq<char>,
> {
    if ev.0 == "content_block_delta"@ {
        ev.1
    } else if ev.0 == "content_block_start"@ {
        ev.2
    } else {
        None
    }
}

impl AnthropicStreamEvent {
    /// The text this event carries, if any.
    pub fn text_fragment(&self) -> (r: Option<Vec<char>>)
        ensures
            match r {
                Some(t) => anthropic_fragment(event_view(*self)) == Some(t@),
                None => anthropic_fragment(event_view(*self)) is None,
            },
    {
        let delta_kind = str_chars("content_block_delta");
        let start_kind = str_chars("content_block_start");
        if chars_eq(self.event_type.as_slice(), delta_kind.as_slice()) {
            match &self.delta_text {
                Some(t) => Some(subrange_vec(t.as_slice(), 0, t.len())),
                None => None,
            }
        } else if chars_eq(self.event_type.as_slice(), start_kind.as_slice()) {
            match &self.block_text {
                Some(t) => Some(subrange_vec(t.as_slice(), 0, t.len())),
                None => None,
            }
        } else {
            None
        }
    }
}

/// The fragments of one flushed event payload, or None on a decode failure:
/// a blank or `[DONE]` payload yields nothing, any other payload is parsed
/// and yields its event's text when it carries a non-empty one.
pub open spec fn anthropic_event_frags(payload: Seq<char>) -> Option<Seq<Seq<char>>> {
    let t = trim_spec(payload);
    if t.len() == 0 || t == done_marker() {
        Some(Seq::empty())
    } else {
        match anthropic_event_of(t) {
            None => None,
            Some(ev) => match anthropic_fragment(ev) {
                Some(text) => if text.len() > 0 {
                    Some(seq![text])
                } else {
                    Some(Seq::empty())
                },
                None => Some(Seq::empty()),
            },
        }
    }
}

/// The fragments of a sequence of event payloads, stopping at the first
/// payload that fails to decode; the flag says whether all payloads decoded.
pub open spec fn anthropic_events_run(payloads: Seq<Seq<char>>) -> (Seq<Seq<char>>, bool)
    decreases payloads.len(),
{
    if payloads.len() == 0 {
        (Seq::empty(), true)
    } else {
        match anthropic_event_frags(payloads.first()) {
            None => (Seq::empty(), false),
            Some(fs) => {
                let rec = anthropic_events_run(payloads.drop_first());
                (fs + rec.0, rec.1)
            },
        }
    }
}

/// Decode the fragments of one event payload. Returns None on a decode
/// failure.
fn decode_event(payload: &Vec<char>) -> (r: Option<Vec<String>>)
    ensures
        match r {
            Some(fs) => anthropic_event_frags(payload@) == Some(string_views(fs@)),
            None => anthropic_event_frags(payload@) is None,
        },
{
    let t = trim_chars(payload.as_slice());
    let dm = str_chars("[DONE]");
    if t.len() == 0 || chars_eq(t.as_slice(), dm.as_slice()) {
        let r: Vec<String> = Vec::new();
        proof {
            assert(string_views(r@) =~= Seq::<Seq<char>>::empty());
        }
        return Some(r);
    }
    match parse_anthropic_event(chars_string(t.as_slice()).as_str()) {
        Err(_) => None,
        Ok(event) => {
            let mut fs: Vec<String> = Vec::new();
            match event.text_fragment() {
                Some(text) => {
                    if text.len() > 0 {
                        fs.push(chars_string(text.as_slice()));
                        proof {
                            assert(string_views(fs@) =~= seq![text@]);
                        }
                    } else {
                        proof {
                            assert(string_views(fs@) =~= Seq::<Seq<char>>::empty());
                        }
                    }
                },
                None => {
                    proof {
                        assert(string_views(fs@) =~= Seq::<Seq<char>>::empty());
                    }
                },
            }
            Some(fs)
        },
    }
}

/// Decode a batch of flushed event payloads, stopping at the first decode
/// failure.
fn decode_payloads(payloads: &Vec<Vec<char>>) -> (r: (Vec<String>, bool))
    ensures
        string_views(r.0@) == anthropic_events_run(views_of(payloads@)).0,
        r.1 == anthropic_events_run(views_of(payloads@)).1,
{
    let mut frags: Vec<String> = Vec::new();
    let n: usize = payloads.len();
    let ghost total = anthropic_events_run(views_of(payloads@));
    let mut i: usize = 0;
    proof {
        assert(views_of(payloads@).skip(0) =~= views_of(payloads@));
        assert(string_views(frags@) + total.0 =~= total.0);
    }
    while i < n
        invariant
            0 <= i <= n,
            n == payloads@.len(),
            total == anthropic_events_run(views_of(payloads@)),
            ({
                let rem = anthropic_events_run(views_of(payloads@).skip(i as int));
                string_views(frags@) + rem.0 == total.0 && rem.1 == total.1
            }),
        decreases n - i,
    {
        proof {
            assert(views_of(payloads@).skip(i as int).first() == payloads@[i as int]@);
            assert(views_of(payloads@).skip(i as int).drop_first() =~= views_of(payloads@).skip(
                i as int + 1,
            ));
        }
        match decode_event(&payloads[i]) {
            None => {
                proof {
                    assert(anthropic_events_run(views_of(payloads@).skip(i as int)).0
                        =~= Seq::<Seq<char>>::empty());
                    assert(string_views(frags@) + Seq::<Seq<char>>::empty() =~= string_views(
                        frags@,
                    ));
                }
                return (frags, false);
            },
            Some(fs) => {
                let ghost frags0 = string_views(frags@);
                let ghost fsv = string_views(fs@);
                let nf: usize = fs.len();
                let mut j: usize = 0;
                let fs2 = fs;
                while j < nf
                    invariant
                        0 <= j <= nf,
                        nf == fs2@.len(),
                        string_views(fs2@) == fsv,
                        string_views(frags@) == frags0 + fsv.take(j as int),
                    decreases nf - j,
                {
                    let ghost fa = string_views(frags@);
                    let item = fs2[j].clone();
                    assert(item@ == fs2@[j as int]@);
                    frags.push(item);
                    proof {
                        assert(string_views(frags@) =~= fa.push(fsv[j as int]));
                        assert(fsv.take(j + 1 as int) =~= fsv.take(j as int).push(fsv[j as int]));
                        assert(string_views(frags@) =~= frags0 + fsv.take(j + 1 as int));
                    }
                    j = j + 1;
                }
                proof {
                    assert(fsv.take(nf as int) =~= fsv);
                    assert((frags0 + fsv) + anthropic_events_run(
                        views_of(payloads@).skip(i as int + 1),
                    ).0 =~= frags0 + (fsv + anthropic_events_run(
                        views_of(payloads@).skip(i as int + 1),
                    ).0));
                }
            },
        }
        i = i + 1;
    }
    proof {
        assert(views_of(payloads@).skip(n as int) =~= Seq::<Seq<char>>::empty());
        assert(string_views(frags@) + Seq::<Seq<char>>::empty() =~= string_views(frags@));
    }
    (frags, true)
}

/// The incremental stream decoder of this vendor: `data:` event framing with
/// typed events and no `[DONE]` clearing at the line level.
pub struct AnthropicStreamDecoder {
    pub sse: SseDecoder,
}

impl AnthropicStreamDecoder {
    pub fn new() -> (d: AnthropicStreamDecoder)
        ensures
            d.sse.line_acc@ == Seq::<char>::empty(),
            d.sse.pending@ == Seq::<char>::empty(),
            d.sse.done_clears_pending == false,
    {
        AnthropicStreamDecoder { sse: SseDecoder::new(false) }
    }

    /// Feed one chunk of the response body. Returns the non-empty fragments
    /// it completes, in order, and whether every completed event decoded.
    pub fn push_chunk(&mut self, chunk: &str) -> (r: (Vec<String>, bool))
        ensures
            ({
                let run = sse_run(
                    chunk@,
                    old(self).sse.line_acc@,
                    old(self).sse.pending@,
                    old(self).sse.done_clears_pending,
                );
                let ev = anthropic_events_run(run.2);
                &&& final(self).sse.line_acc@ == run.0
                &&& final(self).sse.pending@ == run.1
                &&& final(self).sse.done_clears_pending == old(self).sse.done_clears_pending
                &&& string_views(r.0@) == ev.0
                &&& r.1 == ev.1
            }),
    {
        let payloads = self.sse.push_chunk(chunk);
        decode_payloads(&payloads)
    }

    /// Flush the residual payload after the connection has closed.
    pub fn finish(&mut self) -> (r: (Vec<String>, bool))
        ensures
            *final(self) == *old(self),
            ({
                let ev = match sse_finish_spec(old(self).sse.pending@) {
                    Some(p) => anthropic_events_run(seq![p]),
                    None => (Seq::<Seq<char>>::empty(), true),
                };
                string_views(r.0@) == ev.0 && r.1 == ev.1
            }),
    {
        match self.sse.finish() {
            Some(p) => {
                let payloads: Vec<Vec<char>> = vec![p];
                proof {
                    assert(views_of(payloads@) =~= seq![payloads@[0]@]);
                }
                decode_payloads(&payloads)
            },
            None => {
                let r: Vec<String> = Vec::new();
                proof {
                    assert(string_views(r@) =~= Seq::<Seq<char>>::empty());
                }
                (r, true)
            },
        }
    }
}

/// Decoding a batch of event payloads in two halves yields the same
/// fragments, in the same order, as decoding them all at once, as long as
/// everything in the first half decodes. Together with the chunk-splitting
/// law of the line decoder, the fragments a consumer sees do not depend on
/// how the network split the stream.
pub proof fn lemma_anthropic_events_split(a: Seq<Seq<char>>, b: Seq<Seq<char>>)
    requires
        anthropic_events_run(a).1,
    ensures
        ({
            let whole = anthropic_events_run(a + b);
            let first = anthropic_events_run(a);
            let second = anthropic_events_run(b);
            whole.0 == first.0 + second.0 && whole.1 == second.1
        }),
    decreases a.len(),
{
    if a.len() == 0 {
        assert(a + b =~= b);
        assert(anthropic_events_run(a).0 =~= Seq::<Seq<char>>::empty());
        assert(Seq::<Seq<char>>::empty() + anthropic_events_run(b).0 =~= anthropic_events_run(b).0);
    } else {
        assert((a + b).len() > 0);
        assert((a + b).first() == a.first());
        assert((a + b).drop_first() =~= a.drop_first() + b);
        match anthropic_event_frags(a.first()) {
            None => {
                assert(!anthropic_events_run(a).1);
            },
            Some(fs) => {
                lemma_anthropic_events_split(a.drop_first(), b);
                let rec_first = anthropic_events_run(a.drop_first());
                let second = anthropic_events_run(b);
                assert((fs + rec_first.0) + second.0 =~= fs + (rec_first.0 + second.0));
            },
        }
    }
}

/// No fragment this decoder emits is ever empty.
pub proof fn lemma_anthropic_frags_nonempty(payloads: Seq<Seq<char>>)
    ensures
        forall|i: int|
            0 <= i < anthropic_events_run(payloads).0.len() ==> #[trigger] anthropic_events_run(
                payloads,
            ).0[i].len() > 0,
    decreases payloads.len(),
{
    if payloads.len() > 0 {
        match anthropic_event_frags(payloads.first()) {
            None => {},
            Some(fs) => {
                lemma_anthropic_frags_nonempty(payloads.drop_first());
                let rec = anthropic_events_run(payloads.drop_first());
                assert(anthropic_events_run(payloads).0 == fs + rec.0);
                assert forall|i: int|
                    0 <= i < anthropic_events_run(payloads).0.len() implies #[trigger] anthropic_events_run(
                    payloads,
                ).0[i].len() > 0 by {
                    if i < fs.len() {
                        assert(anthropic_events_run(payloads).0[i] == fs[i]);
                    } else {
                        assert(anthropic_events_run(payloads).0[i] == rec.0[i - fs.len()]);
                    }
                }
            },
        }
    }
}

/// Two reply extractions from the same response body agree: the reply is a
/// function of the body alone.
pub proof fn lemma_anthropic_reply_deterministic(
    body: Seq<char>,
    r1: Option<Seq<char>>,
    r2: Option<Seq<char>>,
)
    requires
        r1 == (match anthropic_reply_of(body) {
            Some(bs) => merged_text_spec(bs),
            None => None,
        }),
        r2 == (match anthropic_reply_of(body) {
            Some(bs) => merged_text_spec(bs),
            None => None,
        }),
    ensures
        r1 == r2,
{
}

} // verus!
