//! The summary of a meeting: what is asked of the language model, and what is
//! taken from its answer.

use serde_json::Value;
use vstd::prelude::*;

use crate::event_log::{contents, logged, read_events_jsonl};
use crate::events::{number_json, text_json, AudioSource, Event};
use crate::json;
use crate::json::{json, member_map, read_bytes, written, Json};
use crate::retranscribe::law_log_holds_every_field;
use crate::text;
use crate::text::optional_str;

verus! {

/// The longest summary, in tokens.
pub const MAX_TOKENS: u64 = 4096;

/// What is asked for where the meeting has no prompt of its own.
pub const DEFAULT_SUMMARY_PROMPT: &'static str = r#"Please provide a comprehensive summary of this meeting transcript.

## Required Sections

### 1. Overview
Brief description of the meeting purpose and participants.

### 2. Key Discussion Points
Main topics discussed with relevant details.

### 3. Decisions Made
Any decisions that were reached during the meeting.

### 4. Action Items
**IMPORTANT**: Extract ALL action items, tasks, and commitments mentioned. For each action item include:
- [ ] **Task description** - Owner (if mentioned) - Due date (if mentioned)

Look for phrases like "I'll do", "we need to", "can you", "let's", "action item", "TODO", "follow up", etc.

### 5. Next Steps
Any planned follow-up meetings, deadlines, or milestones.

### 6. Notable Quotes
Important statements worth highlighting (optional, only if significant).

Format the output in clean Markdown."#;

/// The line of the transcript that stands for an event; `None` for an event
/// that has none.
pub open spec fn summary_line(event: Json) -> Option<Seq<char>> {
    let kind = event.text_at("type"@);
    if kind == Some("segment"@) {
        Some("["@ + speaker_of(event) + "]: "@ + or_nothing(event.text_at("text"@)))
    } else if kind == Some("marker"@) {
        Some("[MARKER]: "@ + or_nothing(event.text_at("label"@)))
    } else if kind == Some("manual"@) {
        Some("[NOTE]: "@ + or_nothing(event.text_at("text"@)))
    } else {
        None
    }
}

/// The text, or no characters.
pub open spec fn or_nothing(s: Option<Seq<char>>) -> Seq<char> {
    match s {
        Some(chars) => chars,
        None => ""@,
    }
}

/// Who speaks in a segment: its label, or whether it came from the microphone.
pub open spec fn speaker_of(event: Json) -> Seq<char> {
    match event.text_at("speaker"@) {
        Some(label) => label,
        None => if event.text_at("src"@) == Some("mic"@) {
            "ME"@
        } else {
            "REMOTE"@
        },
    }
}

/// The lines of the transcript.
pub open spec fn summary_lines(events: Seq<Json>) -> Seq<Seq<char>>
    decreases events.len(),
{
    if events.len() == 0 {
        Seq::empty()
    } else {
        let earlier = summary_lines(events.drop_last());
        match summary_line(events.last()) {
            Some(line) => earlier.push(line),
            None => earlier,
        }
    }
}

/// The transcript of a meeting as the model sees it.
pub open spec fn transcript_of(events: Seq<Json>) -> Seq<char> {
    text::joined(summary_lines(events), "\n"@)
}

/// What is asked of the model: the meeting's own prompt or the default one, the
/// context of the meeting if there is one, and the transcript.
pub open spec fn prompt_text(
    custom: Option<Seq<char>>,
    context: Option<Seq<char>>,
    transcript: Seq<char>,
) -> Seq<char> {
    let base = match custom {
        Some(prompt) => prompt,
        None => DEFAULT_SUMMARY_PROMPT@,
    };
    match context {
        Some(ctx) => base + "\n\n## Meeting Context\n"@ + ctx + "\n\n## Transcript\n"@ + transcript,
        None => base + "\n\n## Transcript\n"@ + transcript,
    }
}

/// The request that puts a prompt to this model.
pub open spec fn request_json(model: Seq<char>, prompt: Seq<char>) -> Json {
    let message = Json::Object(
        Map::empty().insert("role"@, text_json("user"@)).insert("content"@, text_json(prompt)),
    );
    Json::Object(
        Map::empty().insert("model"@, text_json(model)).insert(
            "max_tokens"@,
            number_json(MAX_TOKENS),
        ).insert("messages"@, Json::List(seq![message])),
    )
}

/// The text of the first part of an answer.
pub open spec fn answer_text(response: Json) -> Option<Seq<char>> {
    match response.member("content"@) {
        Some(parts) => match parts.item(0) {
            Some(part) => part.text_at("text"@),
            None => None,
        },
        None => None,
    }
}

/// Why there is no summary.
#[derive(Debug)]
pub enum SummaryError {
    /// The answer is no JSON.
    NotJson(serde_json::Error),
    /// The service reported this error.
    Api(String),
}

/// What the service reports as an error, as JSON.
pub open spec fn reported_error(response: Json) -> Option<Seq<char>> {
    match response.member("error"@) {
        Some(error) => Some(written(error)),
        None => None,
    }
}

/// The line of the transcript that stands for an event.
pub fn transcript_line(event: &Value) -> (line: Option<String>)
    ensures
        match line {
            Some(l) => summary_line(json(*event)) == Some(l@),
            None => summary_line(json(*event)) is None,
        },
{
    proof {
        reveal_strlit("");
    }
    if json::text_is(event, "type", "segment") {
        let speaker = match json::text_at(event, "speaker") {
            Some(label) => label,
            None => if json::text_is(event, "src", "mic") {
                "ME"
            } else {
                "REMOTE"
            },
        };
        let mut line = "[".to_owned();
        line.append(speaker);
        line.append("]: ");
        line.append(text_or_nothing(event, "text"));
        Some(line)
    } else if json::text_is(event, "type", "marker") {
        let mut line = "[MARKER]: ".to_owned();
        line.append(text_or_nothing(event, "label"));
        Some(line)
    } else if json::text_is(event, "type", "manual") {
        let mut line = "[NOTE]: ".to_owned();
        line.append(text_or_nothing(event, "text"));
        Some(line)
    } else {
        None
    }
}

fn text_or_nothing<'a>(event: &'a Value, key: &str) -> (s: &'a str)
    ensures
        s@ == or_nothing(json(*event).text_at(key@)),
{
    match json::text_at(event, key) {
        Some(found) => found,
        None => "",
    }
}

/// The transcript of a meeting as the model sees it.
pub fn transcript_text(events: &Vec<Value>) -> (transcript: String)
    ensures
        transcript@ == transcript_of(contents(events@)),
{
    let ghost all = contents(events@);
    let mut lines: Vec<String> = Vec::new();
    assert(text::views(lines@) =~= summary_lines(all.take(0)));
    for i in 0..events.len()
        invariant
            all == contents(events@),
            text::views(lines@) == summary_lines(all.take(i as int)),
    {
        assert(all.take(i + 1).drop_last() =~= all.take(i as int));
        assert(all.take(i + 1).last() == json(events@[i as int]));
        if let Some(line) = transcript_line(&events[i]) {
            assert(text::views(lines@.push(line)) =~= text::views(lines@).push(line@));
            lines.push(line);
        }
    }
    assert(all.take(events@.len() as int) =~= all);
    text::join(&lines, "\n")
}

/// What is asked of the model.
pub fn summary_prompt(custom: Option<&str>, context: Option<&str>, transcript: &str) -> (prompt:
    String)
    ensures
        prompt@ == prompt_text(optional_str(custom), optional_str(context), transcript@),
{
    let mut prompt = match custom {
        Some(base) => base.to_owned(),
        None => DEFAULT_SUMMARY_PROMPT.to_owned(),
    };
    if let Some(ctx) = context {
        prompt.append("\n\n## Meeting Context\n");
        prompt.append(ctx);
    }
    prompt.append("\n\n## Transcript\n");
    prompt.append(transcript);
    prompt
}

/// The body of the request that puts a prompt to this model.
pub fn request_body(model: &str, prompt: &str) -> (body: String)
    ensures
        body@ == written(request_json(model@, prompt@)),
{
    let mut message = json::object_value();
    json::set(&mut message, "role", json::text_value("user".to_owned()));
    json::set(&mut message, "content", json::text_value(prompt.to_owned()));
    let ghost held = json(message);
    let mut messages: Vec<Value> = Vec::new();
    messages.push(message);
    assert(messages@.map_values(|item: Value| json(item)) =~= seq![held]);
    let mut request = json::object_value();
    json::set(&mut request, "model", json::text_value(model.to_owned()));
    json::set(&mut request, "max_tokens", json::number_value(MAX_TOKENS));
    json::set(&mut request, "messages", json::list_value(messages));
    json::to_text(&request)
}

/// The body of the request for the summary of a log.
pub fn summary_request(log: &str, custom: Option<&str>, context: Option<&str>, model: &str) -> (body:
    String)
    ensures
        body@ == written(
            request_json(
                model@,
                prompt_text(
                    optional_str(custom),
                    optional_str(context),
                    transcript_of(logged(text::lines_of(log@))),
                ),
            ),
        ),
{
    let events = read_events_jsonl(log);
    let transcript = transcript_text(&events);
    let prompt = summary_prompt(custom, context, transcript.as_str());
    request_body(model, prompt.as_str())
}

/// The settings that are handed to curl on its standard input.
pub open spec fn config_text(api_key: Seq<char>) -> Seq<char> {
    "header = \"x-api-key: "@ + api_key
        + "\"\nheader = \"anthropic-version: 2023-06-01\"\nheader = \"content-type: application/json\""@
}

/// The arguments of curl for a request with this body.
pub open spec fn argument_texts(body: Seq<char>) -> Seq<Seq<char>> {
    seq![
        "-s"@,
        "-X"@,
        "POST"@,
        "https://api.anthropic.com/v1/messages"@,
        "--config"@,
        "-"@,
        "-d"@,
        body,
    ]
}

/// The settings that are handed to curl on its standard input, where the key
/// does not show in the list of processes.
pub fn curl_config(api_key: &str) -> (config: String)
    ensures
        config@ == config_text(api_key@),
{
    let mut config = "header = \"x-api-key: ".to_owned();
    config.append(api_key);
    config.append(
        "\"\nheader = \"anthropic-version: 2023-06-01\"\nheader = \"content-type: application/json\"",
    );
    config
}

/// The arguments of curl for a request with this body. The settings are read
/// from standard input.
pub fn curl_arguments(body: &str) -> (args: Vec<String>)
    ensures
        text::views(args@) == argument_texts(body@),
{
    let mut args: Vec<String> = Vec::new();
    args.push("-s".to_owned());
    args.push("-X".to_owned());
    args.push("POST".to_owned());
    args.push("https://api.anthropic.com/v1/messages".to_owned());
    args.push("--config".to_owned());
    args.push("-".to_owned());
    args.push("-d".to_owned());
    args.push(body.to_owned());
    assert(text::views(args@) =~= argument_texts(body@));
    args
}

/// A call of curl.
#[derive(Debug)]
pub struct CurlCall {
    /// Its arguments, which show in the list of processes.
    pub arguments: Vec<String>,
    /// What it reads from standard input.
    pub input: String,
}

/// What a call of curl holds.
pub struct Call {
    /// Its arguments.
    pub arguments: Seq<Seq<char>>,
    /// What it reads from standard input.
    pub input: Seq<char>,
}

impl View for CurlCall {
    type V = Call;

    open spec fn view(&self) -> Call {
        Call { arguments: text::views(self.arguments@), input: self.input@ }
    }
}

/// The call of curl that asks for the summary of a log.
pub open spec fn call_for(
    log: Seq<char>,
    custom: Option<Seq<char>>,
    context: Option<Seq<char>>,
    model: Seq<char>,
    api_key: Seq<char>,
) -> Call {
    let transcript = transcript_of(logged(text::lines_of(log)));
    let request = request_json(model, prompt_text(custom, context, transcript));
    Call { arguments: argument_texts(written(request)), input: config_text(api_key) }
}

/// The call of curl that asks for the summary of a log.
pub fn summary_call(
    log: &str,
    custom: Option<&str>,
    context: Option<&str>,
    model: &str,
    api_key: &str,
) -> (call: CurlCall)
    ensures
        call@ == call_for(log@, optional_str(custom), optional_str(context), model@, api_key@),
{
    let body = summary_request(log, custom, context, model);
    CurlCall { arguments: curl_arguments(body.as_str()), input: curl_config(api_key) }
}

/// Two calls that are alike but for the key have the same arguments, so the key
/// does not show in the list of processes, nor in the body of the request. It
/// stands in what curl reads from standard input.
pub proof fn law_key_stays_off_the_command_line(
    log: Seq<char>,
    custom: Option<Seq<char>>,
    context: Option<Seq<char>>,
    model: Seq<char>,
    one_key: Seq<char>,
    other_key: Seq<char>,
)
    ensures
        call_for(log, custom, context, model, one_key).arguments == call_for(
            log,
            custom,
            context,
            model,
            other_key,
        ).arguments,
        text::has_part(call_for(log, custom, context, model, one_key).input, one_key),
{
    let start = "header = \"x-api-key: "@.len() as int;
    let input = config_text(one_key);
    assert(input.subrange(start, start + one_key.len()) =~= one_key);
    assert(text::has_part_at(input, one_key, start));
}

/// The key for the service: the one that was given, or else that of the
/// environment.
pub fn api_key<'a>(given: Option<&'a str>, environment: Option<&'a str>) -> (key: Option<&'a str>)
    ensures
        key == match given {
            Some(_) => given,
            None => environment,
        },
{
    match given {
        Some(key) => Some(key),
        None => environment,
    }
}

/// The summary in an answer: its text, or a remark that there is none. The
/// error that the service reports, if it does.
pub fn summary_of(response: &Value) -> (summary: Result<String, String>)
    ensures
        match summary {
            Ok(s) => {
                &&& reported_error(json(*response)) is None
                &&& s@ == match answer_text(json(*response)) {
                    Some(answer) => answer,
                    None => "No summary generated"@,
                }
            },
            Err(error) => reported_error(json(*response)) == Some(error@),
        },
{
    if let Some(error) = json::get(response, "error") {
        return Err(json::to_text(error));
    }
    let answer = match json::get(response, "content") {
        Some(parts) => match json::get_item(parts, 0) {
            Some(part) => json::text_at(part, "text"),
            None => None,
        },
        None => None,
    };
    match answer {
        Some(found) => Ok(found.to_owned()),
        None => Ok("No summary generated".to_owned()),
    }
}

/// The summary in the bytes of an answer.
pub fn summary_from_response(bytes: &[u8]) -> (summary: Result<String, SummaryError>)
    ensures
        match summary {
            Ok(s) => {
                &&& read_bytes(bytes@) is Some
                &&& reported_error(read_bytes(bytes@)->0) is None
                &&& s@ == match answer_text(read_bytes(bytes@)->0) {
                    Some(answer) => answer,
                    None => "No summary generated"@,
                }
            },
            Err(SummaryError::Api(error)) => {
                &&& read_bytes(bytes@) is Some
                &&& reported_error(read_bytes(bytes@)->0) == Some(error@)
            },
            Err(SummaryError::NotJson(_)) => read_bytes(bytes@) is None,
        },
{
    match json::parse_bytes(bytes) {
        Ok(response) => match summary_of(&response) {
            Ok(summary) => Ok(summary),
            Err(error) => Err(SummaryError::Api(error)),
        },
        Err(error) => Err(SummaryError::NotJson(error)),
    }
}

/// The prompt holds the transcript at its end, and begins with the meeting's
/// own prompt where it has one.
pub proof fn law_prompt_holds_the_transcript(
    custom: Option<Seq<char>>,
    context: Option<Seq<char>>,
    transcript: Seq<char>,
)
    ensures
        text::has_suffix(prompt_text(custom, context, transcript), transcript),
        custom is Some ==> text::has_prefix(prompt_text(custom, context, transcript), custom->0),
        custom is None ==> text::has_prefix(
            prompt_text(custom, context, transcript),
            DEFAULT_SUMMARY_PROMPT@,
        ),
{
    let prompt = prompt_text(custom, context, transcript);
    let base = match custom {
        Some(own) => own,
        None => DEFAULT_SUMMARY_PROMPT@,
    };
    assert(prompt.skip(prompt.len() - transcript.len()) =~= transcript);
    assert(prompt.take(base.len() as int) =~= base);
}

/// A segment is put into the transcript with the label of its speaker; without a
/// label it is the user's exactly when its source is the microphone, and
/// somebody else's when it has any other source or none. Markers and notes are
/// put into it as such, and nothing else is. All that was said, marked or noted
/// is there.
pub proof fn law_transcript_names_who_speaks(event: Json, said: Seq<char>)
    ensures
        event.text_at("type"@) == Some("segment"@) && event.text_at("text"@) == Some(said) ==> {
            &&& event.text_at("speaker"@) matches Some(label) ==> summary_line(event) == Some(
                "["@ + label + "]: "@ + said,
            )
            &&& event.text_at("speaker"@) is None && event.text_at("src"@) == Some("mic"@)
                ==> summary_line(event) == Some("[ME]: "@ + said)
            &&& event.text_at("speaker"@) is None && event.text_at("src"@) != Some("mic"@)
                ==> summary_line(event) == Some("[REMOTE]: "@ + said)
        },
        event.text_at("type"@) == Some("marker"@) && event.text_at("label"@) == Some(said)
            ==> summary_line(event) == Some("[MARKER]: "@ + said),
        event.text_at("type"@) == Some("manual"@) && event.text_at("text"@) == Some(said)
            ==> summary_line(event) == Some("[NOTE]: "@ + said),
        event.text_at("type"@) == Some("segment"@) || event.text_at("type"@) == Some("marker"@)
            || event.text_at("type"@) == Some("manual"@) <==> summary_line(event) is Some,
{
    reveal_strlit("[");
    reveal_strlit("]: ");
    reveal_strlit("ME");
    reveal_strlit("REMOTE");
    reveal_strlit("[ME]: ");
    reveal_strlit("[REMOTE]: ");
    reveal_strlit("segment");
    reveal_strlit("marker");
    reveal_strlit("manual");
    assert("["@ + "ME"@ + "]: "@ =~= "[ME]: "@);
    assert("["@ + "REMOTE"@ + "]: "@ =~= "[REMOTE]: "@);
    assert("segment"@.len() != "marker"@.len());
    assert("segment"@.len() != "manual"@.len());
    assert("marker"@[2] != "manual"@[2]);
}

/// What the live transcript logged is put into the mouth of whoever said it: the
/// microphone is the user, the system audio somebody else. A marker and a note
/// stand as the user made them.
pub proof fn law_transcript_shows_the_live_log(event: Event)
    ensures
        ({
            let line = summary_line(Json::Object(member_map(event.members())));
            match event {
                Event::Segment { src, text, speaker, .. } => match speaker {
                    Some(label) => line == Some("["@ + label@ + "]: "@ + text@),
                    None => match src {
                        AudioSource::Mic => line == Some("[ME]: "@ + text@),
                        AudioSource::Sys => line == Some("[REMOTE]: "@ + text@),
                    },
                },
                Event::Marker { label, .. } => line == Some("[MARKER]: "@ + label@),
                Event::Manual { text, .. } => line == Some("[NOTE]: "@ + text@),
                _ => line is None,
            }
        }),
{
    let logged = Json::Object(member_map(event.members()));
    law_log_holds_every_field(event);
    reveal_strlit("mic");
    reveal_strlit("sys");
    reveal_strlit("segment");
    reveal_strlit("marker");
    reveal_strlit("manual");
    reveal_strlit("session_start");
    reveal_strlit("session_end");
    reveal_strlit("screenshot");
    assert("mic"@[0] != "sys"@[0]);
    assert("segment"@.len() == 7 && "marker"@.len() == 6 && "manual"@.len() == 6);
    assert("session_start"@.len() == 13 && "session_end"@.len() == 11 && "screenshot"@.len() == 10);
    match event {
        Event::Segment { text, .. } => law_transcript_names_who_speaks(logged, text@),
        Event::Marker { label, .. } => law_transcript_names_who_speaks(logged, label@),
        Event::Manual { text, .. } => law_transcript_names_who_speaks(logged, text@),
        _ => law_transcript_names_who_speaks(logged, Seq::empty()),
    }
}

/// The transcript has one line for each event that has one, in their order.
pub proof fn law_transcript_has_every_line(some: Seq<Json>, more: Seq<Json>, event: Json)
    ensures
        summary_lines(Seq::empty()) == Seq::<Seq<char>>::empty(),
        summary_line(event) matches Some(line) ==> summary_lines(seq![event]) == seq![line],
        summary_line(event) is None ==> summary_lines(seq![event]) == Seq::<Seq<char>>::empty(),
        summary_lines(some + more) == summary_lines(some) + summary_lines(more),
        transcript_of(some) == text::joined(summary_lines(some), "\n"@),
    decreases more.len(),
{
    assert(seq![event].drop_last() =~= Seq::empty());
    assert(summary_lines(seq![event].drop_last()) =~= Seq::empty());
    if more.len() == 0 {
        assert(some + more =~= some);
        assert(summary_lines(some + more) =~= summary_lines(some) + summary_lines(more));
    } else {
        law_transcript_has_every_line(some, more.drop_last(), event);
        assert((some + more).drop_last() =~= some + more.drop_last());
        assert(summary_lines(some + more) =~= summary_lines(some) + summary_lines(more));
    }
}

/// The prompt is the meeting's own or the default one, then the context if there
/// is one, then the transcript, each in full and under its heading, and nothing
/// else.
pub proof fn law_prompt_holds_everything(
    own: Seq<char>,
    context: Seq<char>,
    transcript: Seq<char>,
)
    ensures
        prompt_text(Some(own), Some(context), transcript) == own
            + "\n\n## Meeting Context\n"@ + context + "\n\n## Transcript\n"@ + transcript,
        prompt_text(Some(own), None, transcript) == own + "\n\n## Transcript\n"@ + transcript,
        prompt_text(None, None, transcript) == prompt_text(
            Some(DEFAULT_SUMMARY_PROMPT@),
            None,
            transcript,
        ),
        prompt_text(None, Some(context), transcript) == prompt_text(
            Some(DEFAULT_SUMMARY_PROMPT@),
            Some(context),
            transcript,
        ),
{
}

/// The request names the model and the longest answer, and has one message: the
/// user asks the prompt.
pub proof fn law_request_asks_the_prompt(model: Seq<char>, prompt: Seq<char>)
    ensures
        ({
            let request = request_json(model, prompt);
            &&& request.text_at("model"@) == Some(model)
            &&& request.natural_at("max_tokens"@) == Some(4096u64)
            &&& request.member("messages"@) is Some
            &&& request.member("messages"@)->0.item(0) is Some
            &&& request.member("messages"@)->0.item(0)->0.text_at("role"@) == Some("user"@)
            &&& request.member("messages"@)->0.item(0)->0.text_at("content"@) == Some(prompt)
            &&& request.member("messages"@)->0.item(1) is None
        }),
{
    reveal_strlit("model");
    reveal_strlit("max_tokens");
    reveal_strlit("messages");
    reveal_strlit("role");
    reveal_strlit("content");
    assert("model"@.len() == 5 && "max_tokens"@.len() == 10 && "messages"@.len() == 8);
    assert("role"@.len() == 4 && "content"@.len() == 7);
}

/// The summary is the text of the first part of the answer, if it has one; an
/// error is reported exactly when the answer holds one, and as it is there.
pub proof fn law_answer_is_the_first_part(response: Json, parts: Json, part: Json)
    ensures
        response.member("content"@) == Some(parts) && parts.item(0) == Some(part) ==> answer_text(
            response,
        ) == part.text_at("text"@),
        response.member("content"@) is None ==> answer_text(response) is None,
        response.member("content"@) == Some(parts) && parts.item(0) is None ==> answer_text(
            response,
        ) is None,
        reported_error(response) is None <==> response.member("error"@) is None,
        response.member("error"@) matches Some(error) ==> reported_error(response) == Some(
            written(error),
        ),
{
}

/// The key is the value of its header, and the other headers follow; the body is
/// the last argument, behind the switch for data, and the settings are read from
/// standard input.
pub proof fn law_curl_gets_key_and_body(api_key: Seq<char>, body: Seq<char>)
    ensures
        config_text(api_key) == "header = \"x-api-key: "@ + api_key
            + "\"\nheader = \"anthropic-version: 2023-06-01\"\nheader = \"content-type: application/json\""@,
        argument_texts(body).len() == 8,
        argument_texts(body)[3] == "https://api.anthropic.com/v1/messages"@,
        argument_texts(body)[4] == "--config"@,
        argument_texts(body)[5] == "-"@,
        argument_texts(body)[6] == "-d"@,
        argument_texts(body)[7] == body,
{
}

/// What is known of a call of curl is what it holds.
pub proof fn law_calls_are_known(call: CurlCall, i: int)
    ensures
        call@.arguments.len() == call.arguments@.len(),
        0 <= i < call.arguments@.len() ==> call@.arguments[i] == call.arguments@[i]@,
        call@.input == call.input@,
{
}

/// A segment, a marker or a note without its text is put into the transcript
/// without any.
pub proof fn law_missing_text_is_left_out(event: Json)
    ensures
        event.text_at("type"@) == Some("marker"@) && event.text_at("label"@) is None
            ==> summary_line(event) == Some("[MARKER]: "@),
        event.text_at("type"@) == Some("manual"@) && event.text_at("text"@) is None
            ==> summary_line(event) == Some("[NOTE]: "@),
        event.text_at("type"@) == Some("segment"@) && event.text_at("text"@) is None && event.text_at(
            "speaker"@,
        ) is None && event.text_at("src"@) == Some("mic"@) ==> summary_line(event) == Some(
            "[ME]: "@,
        ),
        event.text_at("type"@) == Some("segment"@) && event.text_at("text"@) is None && event.text_at(
            "speaker"@,
        ) is None && event.text_at("src"@) != Some("mic"@) ==> summary_line(event) == Some(
            "[REMOTE]: "@,
        ),
        event.text_at("type"@) == Some("segment"@) && event.text_at("text"@) is None ==> (
        event.text_at("speaker"@) matches Some(label) ==> summary_line(event) == Some(
            "["@ + label + "]: "@,
        )),
{
    reveal_strlit("");
    reveal_strlit("[");
    reveal_strlit("]: ");
    reveal_strlit("ME");
    reveal_strlit("REMOTE");
    reveal_strlit("[ME]: ");
    reveal_strlit("[REMOTE]: ");
    reveal_strlit("segment");
    reveal_strlit("marker");
    reveal_strlit("manual");
    assert("["@ + "ME"@ + "]: "@ + ""@ =~= "[ME]: "@);
    assert("["@ + "REMOTE"@ + "]: "@ + ""@ =~= "[REMOTE]: "@);
    assert("[MARKER]: "@ + ""@ =~= "[MARKER]: "@);
    assert("[NOTE]: "@ + ""@ =~= "[NOTE]: "@);
    assert("segment"@.len() != "marker"@.len());
    assert("segment"@.len() != "manual"@.len());
    assert("marker"@[2] != "manual"@[2]);
    if let Some(label) = event.text_at("speaker"@) {
        assert("["@ + label + "]: "@ + ""@ =~= "["@ + label + "]: "@);
    }
}

} // verus!
