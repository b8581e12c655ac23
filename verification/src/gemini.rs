//! Talking to Gemini: the query encoding of URL parts, the framing of the
//! server-sent event stream of a translation, the events it becomes, and the
//! text of a generated answer.
use vstd::prelude::*;

use serde_json::Value;

use crate::settings::opt_view;
use crate::text::{
    append_chars, chars_of, is_blank, is_blank_str, join, owned, split_chars, split_on,
    starts_with, str_eq, string_from_chars, string_from_range, sviews, trim, trim_chars, vviews,
};

verus! {

/// What a streaming translation reports to the window.
#[derive(Debug, Clone, PartialEq, Eq)]
pub enum TranslateEvent {
    Chunk { text: String },
    Done,
    Error { message: String },
}

// --- Query encoding -------------------------------------------------------------

pub open spec fn unreserved(c: char) -> bool {
    ('A' <= c <= 'Z') || ('a' <= c <= 'z') || ('0' <= c <= '9') || c == '-' || c == '_' || c == '.'
        || c == '~'
}

pub open spec fn hex_digit(d: nat) -> char {
    if d < 10 {
        ((48 + d) as u32) as char
    } else {
        ((55 + d) as u32) as char
    }
}

/// A character as it stands in a query: itself when unreserved, else '%'
/// and two upper-case hex digits of its lowest byte.
pub open spec fn encoded_char(c: char) -> Seq<char> {
    if unreserved(c) {
        seq![c]
    } else {
        let b = (c as u32) % 256;
        seq!['%', hex_digit((b / 16) as nat), hex_digit((b % 16) as nat)]
    }
}

pub open spec fn encoded(s: Seq<char>) -> Seq<char>
    decreases s.len(),
{
    if s.len() == 0 {
        Seq::empty()
    } else {
        encoded(s.drop_last()) + encoded_char(s.last())
    }
}

fn hex_char(d: u32) -> (r: char)
    requires
        d < 16,
    ensures
        r == hex_digit(d as nat),
{
    if d < 10 {
        crate::text::char_from_ascii_code(48 + d)
    } else {
        crate::text::char_from_ascii_code(55 + d)
    }
}

pub fn encode_query_component(key: &str) -> (r: String)
    ensures
        r@ == encoded(key@),
{
    let v = chars_of(key);
    let mut out: Vec<char> = Vec::new();
    let mut i: usize = 0;
    while i < v.len()
        invariant
            0 <= i <= v.len(),
            out@ == encoded(v@.take(i as int)),
        decreases v.len() - i,
    {
        assert(v@.take(i + 1).drop_last() =~= v@.take(i as int));
        let c = v[i];
        if ('A' <= c && c <= 'Z') || ('a' <= c && c <= 'z') || ('0' <= c && c <= '9') || c == '-'
            || c == '_' || c == '.' || c == '~' {
            out.push(c);
        } else {
            let b = (c as u32) % 256;
            out.push('%');
            out.push(hex_char(b / 16));
            out.push(hex_char(b % 16));
        }
        assert(out@ =~= encoded(v@.take(i as int)) + encoded_char(c));
        i = i + 1;
    }
    assert(v@.take(v.len() as int) =~= v@);
    string_from_chars(&out)
}

// --- The event stream ------------------------------------------------------------

/// The text without carriage returns.
pub open spec fn without_cr(s: Seq<char>) -> Seq<char> {
    s.filter(|c: char| c != '\r')
}

/// The complete blocks (ended by a blank line) of `s` from `start`, scanning
/// from `j`, and what is left after the last of them.
pub open spec fn sse_scan(s: Seq<char>, start: int, j: int) -> (Seq<Seq<char>>, Seq<char>)
    decreases s.len() - j,
{
    if j < start || start < 0 || j + 1 >= s.len() {
        (Seq::empty(), s.skip(start))
    } else if s[j] == '\n' && s[j + 1] == '\n' {
        let r = sse_scan(s, j + 2, j + 2);
        (seq![s.subrange(start, j)] + r.0, r.1)
    } else {
        sse_scan(s, start, j + 1)
    }
}

/// Adds a received chunk (carriage returns dropped) to the buffer and takes
/// out every complete block, in order; the buffer keeps the rest.
pub fn take_sse_blocks(buffer: &mut String, chunk: &str) -> (r: Vec<String>)
    ensures
        sviews(r@) == sse_scan(old(buffer)@ + without_cr(chunk@), 0, 0).0,
        final(buffer)@ == sse_scan(old(buffer)@ + without_cr(chunk@), 0, 0).1,
{
    let mut s = chars_of(buffer.as_str());
    let c = chars_of(chunk);
    let ghost s0 = s@;
    let mut i: usize = 0;
    while i < c.len()
        invariant
            0 <= i <= c.len(),
            s@ == s0 + without_cr(c@.take(i as int)),
        decreases c.len() - i,
    {
        proof {
            reveal(Seq::filter);
        }
        assert(c@.take(i + 1).drop_last() =~= c@.take(i as int));
        if c[i] != '\r' {
            s.push(c[i]);
        }
        assert(s@ =~= s0 + without_cr(c@.take(i + 1)));
        i = i + 1;
    }
    assert(c@.take(c.len() as int) =~= c@);
    let ghost all = s@;
    let mut blocks: Vec<String> = Vec::new();
    let mut start: usize = 0;
    let mut j: usize = 0;
    while j < s.len() && j + 1 < s.len()
        invariant
            all == s@,
            0 <= start <= j,
            j <= s.len(),
            sviews(blocks@) + sse_scan(all, start as int, j as int).0 == sse_scan(all, 0, 0).0,
            sse_scan(all, start as int, j as int).1 == sse_scan(all, 0, 0).1,
        decreases s.len() - j,
    {
        if s[j] == '\n' && s[j + 1] == '\n' {
            let ghost before = sviews(blocks@);
            let ghost rest = sse_scan(all, j + 2, j + 2);
            blocks.push(string_from_range(&s, start, j));
            assert(sviews(blocks@) =~= before.push(all.subrange(start as int, j as int)));
            assert(sviews(blocks@) + rest.0 =~= before + (seq![all.subrange(start as int, j as int)]
                + rest.0));
            start = j + 2;
            j = j + 2;
        } else {
            j = j + 1;
        }
    }
    assert(sse_scan(all, start as int, j as int).0 =~= Seq::<Seq<char>>::empty());
    assert(sviews(blocks@) =~= sviews(blocks@) + Seq::<Seq<char>>::empty());
    let rest = string_from_range(&s, start, s.len());
    assert(all.subrange(start as int, all.len() as int) =~= all.skip(start as int));
    *buffer = rest;
    blocks
}

/// A line of a block that carries something: its data, or the end mark.
#[derive(Debug, Clone, PartialEq, Eq)]
pub enum SsePayload {
    Done,
    Data(String),
}

pub ghost enum PayloadView {
    Done,
    Data(Seq<char>),
}

pub open spec fn payload_views(ps: Seq<SsePayload>) -> Seq<PayloadView> {
    ps.map_values(
        |p: SsePayload|
            match p {
                SsePayload::Done => PayloadView::Done,
                SsePayload::Data(s) => PayloadView::Data(s@),
            },
    )
}

/// What one line carries: nothing for blank lines and comments; otherwise
/// its data (after a "data:" prefix, trimmed), the end mark for "[DONE]".
pub open spec fn line_payload(line: Seq<char>) -> Option<PayloadView> {
    let raw = trim(line);
    if raw.len() == 0 || starts_with(raw, ":"@) {
        None
    } else {
        let data = trim(
            if starts_with(raw, "data:"@) {
                raw.skip(5)
            } else {
                raw
            },
        );
        if data.len() == 0 {
            None
        } else if data == "[DONE]"@ {
            Some(PayloadView::Done)
        } else {
            Some(PayloadView::Data(data))
        }
    }
}

/// The payloads of the lines, up to and including an end mark.
pub open spec fn lines_payloads(lines: Seq<Seq<char>>) -> Seq<PayloadView>
    decreases lines.len(),
{
    if lines.len() == 0 {
        Seq::empty()
    } else {
        let p = lines_payloads(lines.drop_last());
        if p.len() > 0 && p.last() == PayloadView::Done {
            p
        } else {
            match line_payload(lines.last()) {
                Some(x) => p.push(x),
                None => p,
            }
        }
    }
}

/// The payloads of a block. (Its lines are the pieces between line breaks;
/// trimming makes this agree with `str::lines`.)
pub open spec fn block_payloads(block: Seq<char>) -> Seq<PayloadView> {
    lines_payloads(split_on(block, '\n'))
}

pub fn sse_payloads(block: &str) -> (r: Vec<SsePayload>)
    ensures
        payload_views(r@) == block_payloads(block@),
{
    let lines = split_chars(&chars_of(block), '\n');
    let ghost ls = vviews(lines@);
    let mut out: Vec<SsePayload> = Vec::new();
    let mut done = false;
    let mut i: usize = 0;
    assert(ls.take(0) =~= Seq::<Seq<char>>::empty());
    assert(payload_views(out@) =~= Seq::<PayloadView>::empty());
    while i < lines.len()
        invariant
            0 <= i <= lines.len(),
            ls == vviews(lines@),
            payload_views(out@) == lines_payloads(ls.take(i as int)),
            done == (payload_views(out@).len() > 0 && payload_views(out@).last()
                == PayloadView::Done),
        decreases lines.len() - i,
    {
        assert(ls.take(i + 1).drop_last() =~= ls.take(i as int));
        let ghost before = payload_views(out@);
        if !done {
            let raw = trim_chars(&lines[i]);
            let raw_s = string_from_chars(&raw);
            let is_comment = crate::text::starts_with_str(raw_s.as_str(), ":");
            if raw.len() > 0 && !is_comment {
                let stripped = if crate::text::starts_with_str(raw_s.as_str(), "data:") {
                    proof {
                        reveal_strlit("data:");
                    }
                    let r = string_from_range(&raw, 5, raw.len());
                    assert(raw@.subrange(5, raw@.len() as int) =~= raw@.skip(5));
                    chars_of(r.as_str())
                } else {
                    raw.clone()
                };
                let data = trim_chars(&stripped);
                if data.len() > 0 {
                    let data_s = string_from_chars(&data);
                    if str_eq(data_s.as_str(), "[DONE]") {
                        out.push(SsePayload::Done);
                        done = true;
                        assert(payload_views(out@) =~= before.push(PayloadView::Done));
                    } else {
                        out.push(SsePayload::Data(data_s));
                        assert(payload_views(out@) =~= before.push(PayloadView::Data(data@)));
                    }
                }
            }
        }
        i = i + 1;
    }
    assert(ls.take(lines.len() as int) =~= ls);
    out
}

/// One data payload as the app read it.
#[derive(Debug, Clone)]
pub enum SseItem {
    /// The end mark.
    Done,
    /// Data that is not JSON.
    Invalid,
    /// An error object, with its message if it has one.
    ApiError { message: Option<String> },
    /// A response chunk, with its text if it has any.
    Chunk { text: Option<String> },
}

pub open spec fn api_error_text(message: Option<Seq<char>>) -> Seq<char> {
    match message {
        Some(m) => m,
        None => "Gemini API error"@,
    }
}

pub fn api_error_message(message: Option<String>) -> (r: String)
    ensures
        r@ == api_error_text(opt_view(message)),
{
    match message {
        Some(m) => m,
        None => owned("Gemini API error"),
    }
}

/// The mathematical value of an item.
pub ghost enum ItemView {
    Done,
    Invalid,
    ApiError(Option<Seq<char>>),
    Chunk(Option<Seq<char>>),
}

pub open spec fn item_view(i: SseItem) -> ItemView {
    match i {
        SseItem::Done => ItemView::Done,
        SseItem::Invalid => ItemView::Invalid,
        SseItem::ApiError { message } => ItemView::ApiError(opt_view(message)),
        SseItem::Chunk { text } => ItemView::Chunk(opt_view(text)),
    }
}

pub open spec fn item_views(items: Seq<SseItem>) -> Seq<ItemView> {
    items.map_values(|i: SseItem| item_view(i))
}

pub ghost enum EventView {
    Chunk(Seq<char>),
    Done,
    Error(Seq<char>),
}

pub open spec fn event_views(es: Seq<TranslateEvent>) -> Seq<EventView> {
    es.map_values(
        |e: TranslateEvent|
            match e {
                TranslateEvent::Chunk { text } => EventView::Chunk(text@),
                TranslateEvent::Done => EventView::Done,
                TranslateEvent::Error { message } => EventView::Error(message@),
            },
    )
}

/// The events of a block's items and whether the stream ends there: the end
/// mark sends Done and ends it, an error sends its message and ends it, a
/// chunk with text sends the text, anything else is skipped.
pub open spec fn items_events(items: Seq<ItemView>) -> (Seq<EventView>, bool)
    decreases items.len(),
{
    if items.len() == 0 {
        (Seq::empty(), false)
    } else {
        let p = items_events(items.drop_last());
        if p.1 {
            p
        } else {
            match items.last() {
                ItemView::Done => (p.0.push(EventView::Done), true),
                ItemView::Invalid => p,
                ItemView::ApiError(message) => (p.0.push(EventView::Error(api_error_text(message))), true),
                ItemView::Chunk(text) => match text {
                    Some(t) => if t.len() > 0 {
                        (p.0.push(EventView::Chunk(t)), false)
                    } else {
                        p
                    },
                    None => p,
                },
            }
        }
    }
}

pub fn sse_events(items: Vec<SseItem>) -> (r: (Vec<TranslateEvent>, bool))
    ensures
        event_views(r.0@) == items_events(item_views(items@)).0,
        r.1 == items_events(item_views(items@)).1,
{
    let ghost all = items@;
    let mut items = items;
    let mut events: Vec<TranslateEvent> = Vec::new();
    let mut stop = false;
    let mut i: usize = 0;
    assert(item_views(all.take(0)) =~= Seq::<ItemView>::empty());
    assert(event_views(events@) =~= Seq::<EventView>::empty());
    while i < items.len()
        invariant
            0 <= i <= items.len(),
            items@ == all,
            event_views(events@) == items_events(item_views(all.take(i as int))).0,
            stop == items_events(item_views(all.take(i as int))).1,
        decreases items.len() - i,
    {
        assert(item_views(all.take(i + 1)).drop_last() =~= item_views(all.take(i as int)));
        assert(item_views(all.take(i + 1)).last() == item_view(all[i as int]));
        let ghost before = event_views(events@);
        if !stop {
            match &items[i] {
                SseItem::Done => {
                    events.push(TranslateEvent::Done);
                    stop = true;
                    assert(event_views(events@) =~= before.push(EventView::Done));
                },
                SseItem::Invalid => {},
                SseItem::ApiError { message } => {
                    let m = api_error_message(message.clone());
                    let ghost mv = m@;
                    events.push(TranslateEvent::Error { message: m });
                    stop = true;
                    assert(event_views(events@) =~= before.push(EventView::Error(mv)));
                },
                SseItem::Chunk { text } => match text {
                    Some(t) => {
                        if t.as_str().unicode_len() > 0 {
                            let tt = t.clone();
                            events.push(TranslateEvent::Chunk { text: tt });
                            assert(event_views(events@) =~= before.push(EventView::Chunk(t@)));
                        }
                    },
                    None => {},
                },
            }
        }
        i = i + 1;
    }
    assert(all.take(items.len() as int) =~= all);
    (events, stop)
}

/// The text of a response chunk: its parts' texts joined; none when empty.
pub open spec fn chunk_text_of(parts: Seq<Option<String>>) -> Seq<char>
    decreases parts.len(),
{
    if parts.len() == 0 {
        Seq::empty()
    } else {
        chunk_text_of(parts.drop_last()) + match parts.last() {
            Some(t) => t@,
            None => Seq::empty(),
        }
    }
}

pub fn chunk_text(parts: &Vec<Option<String>>) -> (r: Option<String>)
    ensures
        chunk_text_of(parts@).len() == 0 ==> r is None,
        chunk_text_of(parts@).len() > 0 ==> (r matches Some(t) && t@ == chunk_text_of(parts@)),
{
    let mut out: Vec<char> = Vec::new();
    let mut i: usize = 0;
    assert(parts@.take(0) =~= Seq::<Option<String>>::empty());
    while i < parts.len()
        invariant
            0 <= i <= parts.len(),
            out@ == chunk_text_of(parts@.take(i as int)),
        decreases parts.len() - i,
    {
        assert(parts@.take(i + 1).drop_last() =~= parts@.take(i as int));
        match &parts[i] {
            Some(t) => {
                crate::text::append_str_chars(&mut out, t.as_str());
            },
            None => {
                assert(out@ =~= out@ + Seq::<char>::empty());
            },
        }
        i = i + 1;
    }
    assert(parts@.take(parts.len() as int) =~= parts@);
    if out.len() == 0 {
        None
    } else {
        Some(string_from_chars(&out))
    }
}

/// One candidate of a streamed chunk, as far as its text goes: the texts of
/// its content's parts (`None` for a part without a text string); `parts` is
/// `None` when the candidate has no content or no list of parts.
#[derive(Debug, Clone)]
pub struct ChunkCandidate {
    pub parts: Option<Vec<Option<String>>>,
}

/// The text of one candidate: its parts' texts joined.
pub open spec fn candidate_text_of(c: ChunkCandidate) -> Seq<char> {
    match c.parts {
        Some(ps) => chunk_text_of(ps@),
        None => Seq::empty(),
    }
}

/// The text of a chunk: every candidate's text, in order, joined.
pub open spec fn candidates_text_of(cs: Seq<ChunkCandidate>) -> Seq<char>
    decreases cs.len(),
{
    if cs.len() == 0 {
        Seq::empty()
    } else {
        candidates_text_of(cs.drop_last()) + candidate_text_of(cs.last())
    }
}

fn append_part_texts(out: &mut Vec<char>, parts: &Vec<Option<String>>)
    ensures
        final(out)@ == old(out)@ + chunk_text_of(parts@),
{
    let ghost start = out@;
    let mut i: usize = 0;
    assert(parts@.take(0) =~= Seq::<Option<String>>::empty());
    assert(out@ =~= start + chunk_text_of(parts@.take(0)));
    while i < parts.len()
        invariant
            0 <= i <= parts.len(),
            out@ == start + chunk_text_of(parts@.take(i as int)),
        decreases parts.len() - i,
    {
        assert(parts@.take(i + 1).drop_last() =~= parts@.take(i as int));
        match &parts[i] {
            Some(t) => {
                crate::text::append_str_chars(out, t.as_str());
                assert(out@ =~= start + chunk_text_of(parts@.take(i + 1)));
            },
            None => {
                assert(out@ =~= start + chunk_text_of(parts@.take(i + 1)));
            },
        }
        i = i + 1;
    }
    assert(parts@.take(parts.len() as int) =~= parts@);
}

/// The text of a streamed chunk (the data of one event, read as a response):
/// the texts at `candidates[].content.parts[].text`, in order, joined; none
/// when that is empty.
pub fn extract_text_from_chunk(candidates: &Vec<ChunkCandidate>) -> (r: Option<String>)
    ensures
        candidates_text_of(candidates@).len() == 0 ==> r is None,
        candidates_text_of(candidates@).len() > 0 ==> (r matches Some(t) && t@ == candidates_text_of(
            candidates@,
        )),
{
    let mut out: Vec<char> = Vec::new();
    let mut i: usize = 0;
    assert(candidates@.take(0) =~= Seq::<ChunkCandidate>::empty());
    while i < candidates.len()
        invariant
            0 <= i <= candidates.len(),
            out@ == candidates_text_of(candidates@.take(i as int)),
        decreases candidates.len() - i,
    {
        assert(candidates@.take(i + 1).drop_last() =~= candidates@.take(i as int));
        match &candidates[i].parts {
            Some(ps) => {
                append_part_texts(&mut out, ps);
            },
            None => {
                assert(out@ =~= out@ + Seq::<char>::empty());
            },
        }
        i = i + 1;
    }
    assert(candidates@.take(candidates.len() as int) =~= candidates@);
    if out.len() == 0 {
        None
    } else {
        Some(string_from_chars(&out))
    }
}

// --- One data line of the stream ---------------------------------------------------

/// A data line read as a JSON response chunk: its `error` member, if it has
/// one (inside, the `message` string, if that is one), and its candidates.
#[derive(Debug, Clone)]
pub struct StreamChunk {
    pub error: Option<Option<String>>,
    pub candidates: Vec<ChunkCandidate>,
}

pub open spec fn parts_view(ps: Seq<Option<String>>) -> Seq<Option<Seq<char>>> {
    ps.map_values(|p: Option<String>| opt_view(p))
}

pub open spec fn candidate_view(c: ChunkCandidate) -> Option<Seq<Option<Seq<char>>>> {
    match c.parts {
        Some(ps) => Some(parts_view(ps@)),
        None => None,
    }
}

/// The mathematical value of a parse result.
pub open spec fn chunk_view(r: Option<StreamChunk>) -> Option<
    (Option<Option<Seq<char>>>, Seq<Option<Seq<Option<Seq<char>>>>>),
> {
    match r {
        None => None,
        Some(c) => Some(
            (
                match c.error {
                    Some(m) => Some(opt_view(m)),
                    None => None,
                },
                c.candidates@.map_values(|x: ChunkCandidate| candidate_view(x)),
            ),
        ),
    }
}

/// What `serde_json` reads in a data line: nothing when the line is not JSON;
/// otherwise its `error` member, if present (with its `message` string, if
/// that is one), and, for each entry of its `candidates` array, the `text`
/// strings of the entries of its `content.parts` array, where that exists.
pub uninterp spec fn stream_chunk_json(data: Seq<char>) -> Option<
    (Option<Option<Seq<char>>>, Seq<Option<Seq<Option<Seq<char>>>>>),
>;

/// `serde_json::from_str` into a `Value`, with the members above read out of
/// it. What it gives is a function of the text alone, and is named rather
/// than spelled out.
#[verifier::external_body]
fn parse_stream_chunk(data: &str) -> (r: Option<StreamChunk>)
    ensures
        chunk_view(r) == stream_chunk_json(data@),
{
    let v: Value = serde_json::from_str(data).ok()?;
    let text = |p: &Value| p.get("text").and_then(Value::as_str).map(str::to_string);
    let candidates = match v.get("candidates").and_then(Value::as_array) {
        Some(cs) => cs.iter().map(|c| ChunkCandidate {
            parts: c.pointer("/content/parts").and_then(Value::as_array).map(|ps| ps.iter().map(text).collect()),
        }).collect(),
        None => Vec::new(),
    };
    let error = v.get("error").map(|e| e.get("message").and_then(Value::as_str).map(str::to_string));
    Some(StreamChunk { error, candidates })
}

/// The parts' texts joined.
pub open spec fn parts_text(ps: Seq<Option<Seq<char>>>) -> Seq<char>
    decreases ps.len(),
{
    if ps.len() == 0 {
        Seq::empty()
    } else {
        parts_text(ps.drop_last()) + match ps.last() {
            Some(t) => t,
            None => Seq::empty(),
        }
    }
}

/// Every candidate's parts' texts, in order, joined.
pub open spec fn candidates_text(cs: Seq<Option<Seq<Option<Seq<char>>>>>) -> Seq<char>
    decreases cs.len(),
{
    if cs.len() == 0 {
        Seq::empty()
    } else {
        candidates_text(cs.drop_last()) + match cs.last() {
            Some(ps) => parts_text(ps),
            None => Seq::empty(),
        }
    }
}

/// What a data line becomes: not JSON is skipped, an `error` member is an
/// API error, anything else a chunk with the text of its candidates (none
/// when that is empty).
pub open spec fn parsed_item(j: Option<(Option<Option<Seq<char>>>, Seq<Option<Seq<Option<Seq<char>>>>>)>) -> ItemView {
    match j {
        None => ItemView::Invalid,
        Some(x) => match x.0 {
            Some(m) => ItemView::ApiError(m),
            None => ItemView::Chunk(
                if candidates_text(x.1).len() == 0 {
                    None
                } else {
                    Some(candidates_text(x.1))
                },
            ),
        },
    }
}

/// What a payload of a block becomes.
pub open spec fn payload_item(p: PayloadView) -> ItemView {
    match p {
        PayloadView::Done => ItemView::Done,
        PayloadView::Data(d) => parsed_item(stream_chunk_json(d)),
    }
}

pub open spec fn payload_items(ps: Seq<PayloadView>) -> Seq<ItemView> {
    ps.map_values(|p: PayloadView| payload_item(p))
}

proof fn lemma_parts_text(ps: Seq<Option<String>>)
    ensures
        chunk_text_of(ps) == parts_text(parts_view(ps)),
    decreases ps.len(),
{
    if ps.len() > 0 {
        lemma_parts_text(ps.drop_last());
        assert(parts_view(ps).drop_last() =~= parts_view(ps.drop_last()));
    }
}

proof fn lemma_candidates_text(cs: Seq<ChunkCandidate>)
    ensures
        candidates_text_of(cs) == candidates_text(cs.map_values(|x: ChunkCandidate| candidate_view(x))),
    decreases cs.len(),
{
    if cs.len() > 0 {
        lemma_candidates_text(cs.drop_last());
        let m = cs.map_values(|x: ChunkCandidate| candidate_view(x));
        assert(m.drop_last() =~= cs.drop_last().map_values(|x: ChunkCandidate| candidate_view(x)));
        assert(m.last() == candidate_view(cs.last()));
        match cs.last().parts {
            Some(ps) => lemma_parts_text(ps@),
            None => {},
        }
    }
}

/// The item a parsed data line gives.
pub fn sse_item_of(parsed: Option<StreamChunk>) -> (r: SseItem)
    ensures
        item_view(r) == parsed_item(chunk_view(parsed)),
{
    match parsed {
        None => SseItem::Invalid,
        Some(c) => match c.error {
            Some(m) => SseItem::ApiError { message: m },
            None => {
                proof {
                    lemma_candidates_text(c.candidates@);
                }
                SseItem::Chunk { text: extract_text_from_chunk(&c.candidates) }
            },
        },
    }
}

/// The events of one block, and whether the stream ends there.
pub open spec fn block_events(block: Seq<char>) -> (Seq<EventView>, bool) {
    items_events(payload_items(block_payloads(block)))
}

/// Reads one block of the stream: its data lines parsed, the events they
/// give, and whether the stream ends in it.
pub fn process_sse_block(block: &str) -> (r: (Vec<TranslateEvent>, bool))
    ensures
        event_views(r.0@) == block_events(block@).0,
        r.1 == block_events(block@).1,
{
    let payloads = sse_payloads(block);
    let ghost pv = payload_views(payloads@);
    let mut items: Vec<SseItem> = Vec::new();
    let mut i: usize = 0;
    assert(item_views(items@) =~= payload_items(pv.take(0)));
    while i < payloads.len()
        invariant
            0 <= i <= payloads.len(),
            pv == payload_views(payloads@),
            item_views(items@) == payload_items(pv.take(i as int)),
        decreases payloads.len() - i,
    {
        let item = match &payloads[i] {
            SsePayload::Done => SseItem::Done,
            SsePayload::Data(d) => sse_item_of(parse_stream_chunk(d.as_str())),
        };
        assert(item_view(item) == payload_item(pv[i as int]));
        let ghost before = item_views(items@);
        items.push(item);
        assert(item_views(items@) =~= before.push(item_view(item)));
        assert(payload_items(pv.take(i + 1)) =~= payload_items(pv.take(i as int)).push(payload_item(pv[i as int])));
        i = i + 1;
    }
    assert(pv.take(payloads.len() as int) =~= pv);
    sse_events(items)
}

/// The events of the blocks in order, up to and including the first block
/// that ends the stream, and whether one did.
pub open spec fn blocks_events(blocks: Seq<Seq<char>>) -> (Seq<EventView>, bool)
    decreases blocks.len(),
{
    if blocks.len() == 0 {
        (Seq::empty(), false)
    } else {
        let p = blocks_events(blocks.drop_last());
        if p.1 {
            p
        } else {
            let e = block_events(blocks.last());
            (p.0 + e.0, e.1)
        }
    }
}

proof fn lemma_blocks_events_stopped(bs: Seq<Seq<char>>, k: int)
    requires
        0 <= k <= bs.len(),
        blocks_events(bs.take(k)).1,
    ensures
        blocks_events(bs) == blocks_events(bs.take(k)),
    decreases bs.len() - k,
{
    if k < bs.len() {
        assert(bs.take(k + 1).drop_last() =~= bs.take(k));
        lemma_blocks_events_stopped(bs, k + 1);
    } else {
        assert(bs.take(k) =~= bs);
    }
}

/// Takes in received text: the events of the blocks it completes, in order,
/// up to and including the first block that ends the stream, and whether
/// one did; the buffer keeps what follows the last complete block.
pub fn feed_stream(buffer: &mut String, chunk: &str) -> (r: (Vec<TranslateEvent>, bool))
    ensures
        event_views(r.0@) == blocks_events(sse_scan(old(buffer)@ + without_cr(chunk@), 0, 0).0).0,
        r.1 == blocks_events(sse_scan(old(buffer)@ + without_cr(chunk@), 0, 0).0).1,
        final(buffer)@ == sse_scan(old(buffer)@ + without_cr(chunk@), 0, 0).1,
{
    let blocks = take_sse_blocks(buffer, chunk);
    let ghost bs = sviews(blocks@);
    let mut events: Vec<TranslateEvent> = Vec::new();
    let mut i: usize = 0;
    assert(bs.take(0) =~= Seq::<Seq<char>>::empty());
    assert(event_views(events@) =~= Seq::<EventView>::empty());
    while i < blocks.len()
        invariant
            0 <= i <= blocks.len(),
            bs == sviews(blocks@),
            bs == sse_scan(old(buffer)@ + without_cr(chunk@), 0, 0).0,
            buffer@ == sse_scan(old(buffer)@ + without_cr(chunk@), 0, 0).1,
            event_views(events@) == blocks_events(bs.take(i as int)).0,
            !blocks_events(bs.take(i as int)).1,
        decreases blocks.len() - i,
    {
        let (mut block_events_v, stop) = process_sse_block(blocks[i].as_str());
        assert(bs[i as int] == blocks@[i as int]@);
        assert(bs.take(i + 1).drop_last() =~= bs.take(i as int));
        let ghost before = events@;
        let ghost added = block_events_v@;
        events.append(&mut block_events_v);
        assert(event_views(events@) =~= event_views(before) + event_views(added));
        assert(bs.take(i + 1).last() == bs[i as int]);
        assert(blocks_events(bs.take(i + 1)) == (
            blocks_events(bs.take(i as int)).0 + block_events(bs[i as int]).0,
            block_events(bs[i as int]).1,
        ));
        if stop {
            proof {
                lemma_blocks_events_stopped(bs, i + 1);
            }
            return (events, true);
        }
        i = i + 1;
    }
    assert(bs.take(blocks.len() as int) =~= bs);
    (events, false)
}

pub open spec fn empty_response_message() -> Seq<char> {
    "Geminiから空の応答が返りました。"@
}

/// A generated answer: the texts of its parts joined, unless that is blank.
pub fn response_text(texts: &Vec<String>) -> (r: Result<String, String>)
    ensures
        is_blank(join(sviews(texts@), Seq::empty())) ==> (r matches Err(e) && e@
            == empty_response_message()),
        !is_blank(join(sviews(texts@), Seq::empty())) ==> (r matches Ok(t) && t@ == join(
            sviews(texts@),
            Seq::empty(),
        )),
{
    let mut parts: Vec<Vec<char>> = Vec::new();
    let mut i: usize = 0;
    while i < texts.len()
        invariant
            0 <= i <= texts.len(),
            vviews(parts@) == sviews(texts@).take(i as int),
        decreases texts.len() - i,
    {
        let ghost before = vviews(parts@);
        parts.push(chars_of(texts[i].as_str()));
        assert(vviews(parts@) =~= before.push(sviews(texts@)[i as int]));
        assert(sviews(texts@).take(i + 1) =~= sviews(texts@).take(i as int).push(
            sviews(texts@)[i as int],
        ));
        assert(vviews(parts@) =~= sviews(texts@).take(i + 1));
        i = i + 1;
    }
    assert(sviews(texts@).take(texts.len() as int) =~= sviews(texts@));
    let empty: Vec<char> = Vec::new();
    let out = crate::text::join_chars(&parts, &empty);
    assert(empty@ =~= Seq::<char>::empty());
    let s = string_from_chars(&out);
    if is_blank_str(s.as_str()) {
        Err(owned("Geminiから空の応答が返りました。"))
    } else {
        Ok(s)
    }
}

pub open spec fn timeout_message() -> Seq<char> {
    "Geminiの応答がタイムアウトしました。短く録音するか、整形モデルを速いものへ切り替えてください。"@
}

/// The message for a failed request: a fixed hint for a timeout, else the
/// error's own text.
pub fn gemini_request_error(is_timeout: bool, error_text: String) -> (r: String)
    ensures
        r@ == (if is_timeout {
            timeout_message()
        } else {
            error_text@
        }),
{
    if is_timeout {
        owned(
            "Geminiの応答がタイムアウトしました。短く録音するか、整形モデルを速いものへ切り替えてください。",
        )
    } else {
        error_text
    }
}

} // verus!
