//! A prompt on its way to the endpoint, and what is said where no reply comes.
use crate::config::SessionConfig;
#[allow(unused_imports)]
use crate::config::SessionView;
use crate::json::{array, object, Json, JsonNumber};
#[allow(unused_imports)]
use crate::json::{entry_models, law_member_is_first_under_key, JsonModel};
use crate::models::{bearer, read_answer};
#[allow(unused_imports)]
use crate::models::{answer_text, bearer_of};
use crate::output::{hued, one, say, Line, Stream};
#[allow(unused_imports)]
use crate::output::{
    hued_text, law_text_is_said_whole, line_of, lines_of, said, spoken, Figure, LineView,
};
use crate::paint::Hue;
#[allow(unused_imports)]
use crate::paint::Ink;
use crate::session::Message;
#[allow(unused_imports)]
use crate::session::{messages_of, optional_text, MessageView};
use crate::text::{concat, ends_with, trim};
#[allow(unused_imports)]
use crate::text::{ends_with_word, law_word_is_found_where_it_stands, trimmed};
use vstd::prelude::*;

verus! {

/// A request for a reply.
#[derive(Debug, PartialEq, Eq)]
pub struct ChatRequest {
    pub url: String,
    /// What the `Authorization` header says, where there is one.
    pub authorization: Option<String>,
    pub body: Json,
}

/// The address that prompts are sent to.
pub open spec fn chat_url_of(endpoint: Seq<char>) -> Seq<char> {
    endpoint + "/chat/completions"@
}

/// A message as the endpoint reads it.
pub open spec fn message_document(m: MessageView) -> JsonModel {
    JsonModel::Object(
        seq![("role"@, JsonModel::Text(m.role)), ("content"@, JsonModel::Text(m.content))],
    )
}

/// A message of the user.
pub open spec fn user_message(content: Seq<char>) -> MessageView {
    MessageView { role: "user"@, content }
}

/// The messages that are sent: the system prompt, where there is one, before the conversation.
pub open spec fn sent_messages(
    messages: Seq<MessageView>,
    system_prompt: Option<Seq<char>>,
) -> Seq<MessageView> {
    match system_prompt {
        Some(prompt) => seq![MessageView { role: "system"@, content: prompt }] + messages,
        None => messages,
    }
}

/// A seed as a number of a document.
pub open spec fn seed_number(seed: i64) -> JsonNumber {
    if seed >= 0 {
        JsonNumber::Unsigned(seed as u64)
    } else {
        JsonNumber::Negative(seed)
    }
}

/// What is asked of the endpoint whatever the seed.
pub open spec fn seedless_body(messages: Seq<MessageView>, config: SessionView) -> Seq<
    (Seq<char>, JsonModel),
> {
    seq![
        ("model"@, JsonModel::Text(config.model)),
        (
            "messages"@,
            JsonModel::Array(
                sent_messages(messages, config.system_prompt).map_values(
                    |m: MessageView| message_document(m),
                ),
            ),
        ),
        ("stream"@, JsonModel::Bool(true)),
        ("stream_options"@, JsonModel::Object(seq![("include_usage"@, JsonModel::Bool(true))])),
        ("temperature"@, JsonModel::Number(JsonNumber::Single(config.temperature.bits))),
    ]
}

/// What is asked of the endpoint: a reply to the conversation, as a stream that ends with the
/// number of tokens.
pub open spec fn request_body(messages: Seq<MessageView>, config: SessionView) -> JsonModel {
    JsonModel::Object(
        match config.seed {
            Some(seed) => seedless_body(messages, config).push(
                ("seed"@, JsonModel::Number(seed_number(seed))),
            ),
            None => seedless_body(messages, config),
        },
    )
}

/// A message as the endpoint reads it.
fn document_of(role: &str, content: &str) -> (r: Json)
    ensures
        r.model() == message_document(MessageView { role: role@, content: content@ }),
{
    let entries: Vec<(String, Json)> = vec![
        ("role".to_owned(), Json::Text(role.to_owned())),
        ("content".to_owned(), Json::Text(content.to_owned())),
    ];
    assert(entry_models(entries@) =~= message_document(
        MessageView { role: role@, content: content@ },
    )->Object_0);
    object(entries)
}

/// The messages that are sent.
fn documents_of(messages: &Vec<Message>, system_prompt: &Option<String>) -> (r: Json)
    ensures
        r.model() == JsonModel::Array(
            sent_messages(messages_of(messages@), optional_text(*system_prompt)).map_values(
                |m: MessageView| message_document(m),
            ),
        ),
{
    let ghost sent = sent_messages(messages_of(messages@), optional_text(*system_prompt));
    let mut list: Vec<Json> = Vec::new();
    if let Some(prompt) = system_prompt {
        list.push(document_of("system", prompt.as_str()));
    }
    let ghost before = sent.len() - messages@.len();
    let mut i: usize = 0;
    while i < messages.len()
        invariant
            i <= messages@.len(),
            sent == sent_messages(messages_of(messages@), optional_text(*system_prompt)),
            before == sent.len() - messages@.len(),
            before == if *system_prompt is Some { 1int } else { 0int },
            list@.len() == before + i,
            forall|k: int|
                0 <= k < list@.len() ==> (#[trigger] list@[k]).model() == message_document(sent[k]),
        decreases messages@.len() - i,
    {
        assert(sent[before + i] == messages@[i as int]@);
        list.push(document_of(messages[i].role.as_str(), messages[i].content.as_str()));
        i = i + 1;
    }
    assert(list@.map_values(|v: Json| v.model()) =~= sent.map_values(
        |m: MessageView| message_document(m),
    ));
    array(list)
}

/// What is asked of the endpoint.
fn write_body(messages: &Vec<Message>, config: &SessionConfig) -> (r: Json)
    ensures
        r.model() == request_body(messages_of(messages@), config@),
{
    let options: Vec<(String, Json)> = vec![("include_usage".to_owned(), Json::Bool(true))];
    assert(entry_models(options@) =~= seq![("include_usage"@, JsonModel::Bool(true))]);
    let mut entries: Vec<(String, Json)> = vec![
        ("model".to_owned(), Json::Text(config.model.clone())),
        ("messages".to_owned(), documents_of(messages, &config.system_prompt)),
        ("stream".to_owned(), Json::Bool(true)),
        ("stream_options".to_owned(), object(options)),
        ("temperature".to_owned(), Json::Number(JsonNumber::Single(config.temperature.bits))),
    ];
    if let Some(seed) = config.seed {
        let number = if seed >= 0 {
            JsonNumber::Unsigned(seed as u64)
        } else {
            JsonNumber::Negative(seed)
        };
        entries.push(("seed".to_owned(), Json::Number(number)));
    }
    assert(entry_models(entries@) =~= request_body(messages_of(messages@), config@)->Object_0);
    object(entries)
}

/// Takes a prompt into the conversation and returns the request for a reply to it. A prompt of
/// white space alone is not taken.
pub fn begin_prompt(input: &str, messages: &mut Vec<Message>, config: &SessionConfig) -> (r: Option<
    ChatRequest,
>)
    ensures
        r is Some <==> trimmed(input@).len() > 0,
        r is None ==> *final(messages) == *old(messages),
        r matches Some(request) ==> {
            &&& messages_of(final(messages)@) == messages_of(old(messages)@).push(
                user_message(trimmed(input@)),
            )
            &&& request.url@ == chat_url_of(config.endpoint@)
            &&& optional_text(request.authorization) == match config@.api_key {
                Some(key) => Some(bearer_of(key)),
                None => None,
            }
            &&& request.body.model() == request_body(messages_of(final(messages)@), config@)
        },
{
    let content = trim(input);
    if content.as_str().is_empty() {
        return None;
    }
    let ghost before = messages_of(messages@);
    let message = Message { role: "user".to_owned(), content };
    messages.push(message);
    assert(messages_of(messages@) =~= before.push(user_message(trimmed(input@))));
    let authorization = match &config.api_key {
        Some(key) => Some(bearer(key.as_str())),
        None => None,
    };
    Some(
        ChatRequest {
            url: concat(config.endpoint.as_str(), "/chat/completions"),
            authorization,
            body: write_body(messages, config),
        },
    )
}

/// What is said to a prompt of white space alone.
pub fn empty_prompt() -> (r: Line)
    ensures
        r@ == said("Empty input, please try again!"@),
{
    say("Empty input, please try again!")
}

/// The line that names the address that was asked.
pub open spec fn endpoint_line(url: Seq<char>) -> LineView {
    line_of(Stream::Stderr, hued_text(Hue::Yellow, "Endpoint: "@ + url))
}

/// The hint that is due for an address that is not of the usual form.
pub open spec fn endpoint_hint(url: Seq<char>) -> Seq<LineView> {
    if ends_with_word(url, "/v1/chat/completions"@) {
        Seq::empty()
    } else {
        seq![
            line_of(
                Stream::Stderr,
                hued_text(Hue::Yellow, "Hint: Endpoint should typically end with /v1"@),
            ),
        ]
    }
}

/// The line that names the address that was asked.
fn name_endpoint(url: &str) -> (r: Line)
    ensures
        r@ == endpoint_line(url@),
{
    one(Stream::Stderr, hued(Hue::Yellow, concat("Endpoint: ", url).as_str()))
}

/// Adds the hint that is due for an address.
fn push_hint(list: &mut Vec<Line>, url: &str)
    ensures
        lines_of(final(list)@) == lines_of(old(list)@) + endpoint_hint(url@),
{
    if !ends_with(url, "/v1/chat/completions") {
        list.push(
            one(Stream::Stderr, hued(Hue::Yellow, "Hint: Endpoint should typically end with /v1")),
        );
    }
    assert(lines_of(list@) =~= lines_of(old(list)@) + endpoint_hint(url@));
}

/// What is said where the endpoint cannot be reached.
pub fn connection_failure(reason: &str, url: &str) -> (r: Vec<Line>)
    ensures
        lines_of(r@) == seq![
            line_of(
                Stream::Stderr,
                hued_text(Hue::Red, "Error: Failed to connect to endpoint: "@ + reason@),
            ),
            endpoint_line(url@),
        ],
{
    let text = concat("Error: Failed to connect to endpoint: ", reason);
    let r: Vec<Line> = vec![
        one(Stream::Stderr, hued(Hue::Red, text.as_str())),
        name_endpoint(url),
    ];
    assert(lines_of(r@) =~= seq![
        line_of(
            Stream::Stderr,
            hued_text(Hue::Red, "Error: Failed to connect to endpoint: "@ + reason@),
        ),
        endpoint_line(url@),
    ]);
    r
}

/// What is said where the endpoint answers with a status that is none of success.
pub open spec fn status_failure_lines(
    status: Seq<char>,
    answer: Option<Seq<char>>,
    url: Seq<char>,
) -> Seq<LineView> {
    let text = answer_text(answer);
    let response = line_of(Stream::Stderr, hued_text(Hue::Yellow, "Response: "@ + text));
    seq![
        line_of(
            Stream::Stderr,
            hued_text(Hue::Red, "Error: HTTP "@ + status + " from endpoint"@),
        ),
        endpoint_line(url),
    ] + (if text.len() > 0 {
        seq![response]
    } else {
        Seq::empty()
    }) + endpoint_hint(url)
}

/// What is said where the endpoint answers with a status that is none of success, and the error
/// that the prompt ends with.
pub fn status_failure(status: &str, answer: Option<String>, url: &str) -> (r: (Vec<Line>, String))
    ensures
        lines_of(r.0@) == status_failure_lines(status@, optional_text(answer), url@),
        r.1@ == "Request failed with status "@ + status@,
{
    let ghost given = optional_text(answer);
    let mut text = "Error: HTTP ".to_owned();
    text.append(status);
    text.append(" from endpoint");
    let mut list: Vec<Line> = vec![
        one(Stream::Stderr, hued(Hue::Red, text.as_str())),
        name_endpoint(url),
    ];
    assert(lines_of(list@) =~= seq![
        line_of(
            Stream::Stderr,
            hued_text(Hue::Red, "Error: HTTP "@ + status@ + " from endpoint"@),
        ),
        endpoint_line(url@),
    ]);
    let ghost front = lines_of(list@);
    let shown = read_answer(answer);
    if !shown.as_str().is_empty() {
        let response = concat("Response: ", shown.as_str());
        list.push(one(Stream::Stderr, hued(Hue::Yellow, response.as_str())));
        assert(lines_of(list@) =~= front + seq![
            line_of(Stream::Stderr, hued_text(Hue::Yellow, "Response: "@ + answer_text(given))),
        ]);
    } else {
        assert(lines_of(list@) =~= front + Seq::<LineView>::empty());
    }
    push_hint(&mut list, url);
    (list, concat("Request failed with status ", status))
}

/// What is said where the endpoint sends no data at all.
pub open spec fn silence_lines(url: Seq<char>) -> Seq<LineView> {
    seq![
        line_of(
            Stream::Stderr,
            hued_text(Hue::Red, "Error: No streaming data received from endpoint"@),
        ),
        endpoint_line(url),
    ] + endpoint_hint(url)
}

/// What is said where the endpoint sends no data at all, and the error that the prompt ends
/// with.
pub fn silence_failure(url: &str) -> (r: (Vec<Line>, String))
    ensures
        lines_of(r.0@) == silence_lines(url@),
        r.1@ == "No response data received"@,
{
    let mut list: Vec<Line> = vec![
        one(
            Stream::Stderr,
            hued(Hue::Red, "Error: No streaming data received from endpoint"),
        ),
        name_endpoint(url),
    ];
    assert(lines_of(list@) =~= seq![
        line_of(
            Stream::Stderr,
            hued_text(Hue::Red, "Error: No streaming data received from endpoint"@),
        ),
        endpoint_line(url@),
    ]);
    push_hint(&mut list, url);
    (list, "No response data received".to_owned())
}

/// The last message that is sent is always the user's prompt, and the system prompt, where there
/// is one, always the first.
pub proof fn law_prompt_is_sent_last(
    messages: Seq<MessageView>,
    prompt: Seq<char>,
    system_prompt: Option<Seq<char>>,
)
    ensures
        sent_messages(messages.push(user_message(prompt)), system_prompt).last() == user_message(
            prompt,
        ),
        system_prompt matches Some(text) ==> sent_messages(
            messages.push(user_message(prompt)),
            system_prompt,
        ).first() == (MessageView { role: "system"@, content: text }),
{
}

/// The whole conversation is sent: as many messages as it has, and one more in front of them where
/// there is a system prompt. Each message stands in its place, with its role and its content.
pub proof fn law_whole_conversation_is_sent(
    messages: Seq<MessageView>,
    system_prompt: Option<Seq<char>>,
    i: int,
)
    ensures
        system_prompt is None ==> sent_messages(messages, system_prompt).len() == messages.len(),
        system_prompt is Some ==> sent_messages(messages, system_prompt).len() == messages.len() + 1,
        0 <= i < messages.len() && system_prompt is None ==> sent_messages(
            messages,
            system_prompt,
        )[i] == messages[i],
        0 <= i < messages.len() && system_prompt is Some ==> sent_messages(
            messages,
            system_prompt,
        )[i + 1] == messages[i],
        system_prompt matches Some(text) ==> sent_messages(messages, system_prompt)[0].role
            == "system"@ && sent_messages(messages, system_prompt)[0].content == text,
{
}

proof fn lemma_keys()
    ensures
        "model"@.len() == 5,
        "messages"@.len() == 8,
        "stream"@.len() == 6,
        "stream_options"@.len() == 14,
        "temperature"@.len() == 11,
        "seed"@.len() == 4,
        "role"@.len() == 4,
        "content"@.len() == 7,
{
    reveal_strlit("model");
    reveal_strlit("messages");
    reveal_strlit("stream");
    reveal_strlit("stream_options");
    reveal_strlit("temperature");
    reveal_strlit("seed");
    reveal_strlit("role");
    reveal_strlit("content");
}

/// A message is sent with its role and its whole content.
pub proof fn law_message_is_sent_whole(m: MessageView)
    ensures
        message_document(m).member("role"@) == Some(JsonModel::Text(m.role)),
        message_document(m).member("content"@) == Some(JsonModel::Text(m.content)),
{
    lemma_keys();
    let entries = message_document(m)->Object_0;
    law_member_is_first_under_key(entries, "role"@, 0);
    law_member_is_first_under_key(entries, "content"@, 1);
}

/// The request names the model, the temperature and the seed of the session, the seed only where
/// there is one; it asks for a stream that ends with the number of tokens; and it holds the
/// whole conversation.
pub proof fn law_request_says_what_the_session_says(
    messages: Seq<MessageView>,
    config: SessionView,
    i: int,
)
    ensures
        request_body(messages, config).member("model"@) == Some(JsonModel::Text(config.model)),
        request_body(messages, config).member("temperature"@) == Some(
            JsonModel::Number(JsonNumber::Single(config.temperature.bits)),
        ),
        request_body(messages, config).member("stream"@) == Some(JsonModel::Bool(true)),
        request_body(messages, config).member("stream_options"@) matches Some(options)
            && options.member("include_usage"@) == Some(JsonModel::Bool(true)),
        config.seed is None ==> request_body(messages, config).member("seed"@) is None,
        config.seed matches Some(n) ==> request_body(messages, config).member("seed"@) == Some(
            JsonModel::Number(
                if n >= 0 {
                    JsonNumber::Unsigned(n as u64)
                } else {
                    JsonNumber::Negative(n)
                },
            ),
        ),
        request_body(messages, config).member("messages"@) matches Some(list) && {
            let first: int = if config.system_prompt is Some {
                1
            } else {
                0
            };
            &&& list is Array
            &&& list->Array_0.len() == messages.len() + first
            &&& 0 <= i < messages.len() ==> {
                &&& list->Array_0[i + first].member("role"@) == Some(
                    JsonModel::Text(messages[i].role),
                )
                &&& list->Array_0[i + first].member("content"@) == Some(
                    JsonModel::Text(messages[i].content),
                )
            }
            &&& config.system_prompt matches Some(text) ==> {
                &&& list->Array_0[0].member("role"@) == Some(JsonModel::Text("system"@))
                &&& list->Array_0[0].member("content"@) == Some(JsonModel::Text(text))
            }
        },
{
    lemma_keys();
    let entries = request_body(messages, config)->Object_0;
    law_member_is_first_under_key(entries, "model"@, 0);
    law_member_is_first_under_key(entries, "messages"@, 1);
    law_member_is_first_under_key(entries, "stream"@, 2);
    law_member_is_first_under_key(entries, "stream_options"@, 3);
    law_member_is_first_under_key(entries, "temperature"@, 4);
    law_member_is_first_under_key(entries, "seed"@, 5);
    let options = seq![("include_usage"@, JsonModel::Bool(true))];
    law_member_is_first_under_key(options, "include_usage"@, 0);
    let sent = sent_messages(messages, config.system_prompt);
    law_whole_conversation_is_sent(messages, config.system_prompt, i);
    if 0 <= i < messages.len() {
        law_message_is_sent_whole(messages[i]);
    }
    if let Some(text) = config.system_prompt {
        law_message_is_sent_whole(sent[0]);
    }
}

/// A prompt goes to the endpoint's own address and with the session's own key, each of them whole.
pub proof fn law_addresses_and_keys_are_whole(endpoint: Seq<char>, key: Seq<char>)
    ensures
        endpoint.is_prefix_of(chat_url_of(endpoint)),
        chat_url_of(endpoint).skip(endpoint.len() as int) == "/chat/completions"@,
        bearer_of(key).take("Bearer "@.len() as int) == "Bearer "@,
        bearer_of(key).skip("Bearer "@.len() as int) == key,
{
    assert(chat_url_of(endpoint).take(endpoint.len() as int) =~= endpoint);
    assert(chat_url_of(endpoint).skip(endpoint.len() as int) =~= "/chat/completions"@);
    assert(bearer_of(key).take("Bearer "@.len() as int) =~= "Bearer "@);
    assert(bearer_of(key).skip("Bearer "@.len() as int) =~= key);
}

proof fn lemma_usual_address(front: Seq<char>)
    ensures
        chat_url_of(front + "/v1"@) == front + "/v1/chat/completions"@,
{
    reveal_strlit("/v1");
    reveal_strlit("/chat/completions");
    reveal_strlit("/v1/chat/completions");
    assert("/v1"@ + "/chat/completions"@ =~= "/v1/chat/completions"@);
    assert(front + "/v1"@ + "/chat/completions"@ =~= front + ("/v1"@ + "/chat/completions"@));
}

/// A hint about the address is given where it does not end as usual, and only there: none for an
/// endpoint that ends with `/v1`.
pub proof fn law_hint_is_for_unusual_addresses(
    url: Seq<char>,
    front: Seq<char>,
    write: spec_fn(Figure) -> Seq<char>,
)
    ensures
        endpoint_hint(url).len() == 0 <==> exists|a: Seq<char>|
            url == #[trigger] (a + "/v1/chat/completions"@),
        endpoint_hint(url).len() <= 1,
        endpoint_hint(chat_url_of(front + "/v1"@)).len() == 0,
        endpoint_hint(url).len() == 1 ==> spoken(endpoint_hint(url)[0], write)
            == "Hint: Endpoint should typically end with /v1"@ && endpoint_hint(url)[0].stream
            == Stream::Stderr,
{
    law_word_is_found_where_it_stands(url, "/v1/chat/completions"@);
    law_word_is_found_where_it_stands(chat_url_of(front + "/v1"@), "/v1/chat/completions"@);
    lemma_usual_address(front);
    law_text_is_said_whole(
        Stream::Stderr,
        Ink::Plain,
        Hue::Yellow,
        "Hint: Endpoint should typically end with /v1"@,
        write,
    );
}

/// What is said of a failure names the status and the address, and gives the whole answer where
/// there is any, on the standard error; the hint about the address comes last.
pub proof fn law_failures_are_told_in_full(
    status: Seq<char>,
    answer: Option<Seq<char>>,
    url: Seq<char>,
    write: spec_fn(Figure) -> Seq<char>,
)
    ensures
        ({
            let lines = status_failure_lines(status, answer, url);
            let told: int = if answer matches Some(text) && text.len() == 0 {
                0
            } else {
                1
            };
            &&& lines.len() == 2 + told + endpoint_hint(url).len()
            &&& spoken(lines[0], write) == "Error: HTTP "@ + status + " from endpoint"@
            &&& spoken(lines[1], write) == "Endpoint: "@ + url
            &&& told == 1 ==> spoken(lines[2], write) == "Response: "@ + (match answer {
                Some(text) => text,
                None => "Unable to read error"@,
            })
            &&& lines.skip(2 + told) == endpoint_hint(url)
            &&& lines[0].stream == Stream::Stderr && lines[1].stream == Stream::Stderr
            &&& lines[0].spans[0].ink == Ink::Color(Hue::Red)
            &&& lines[1].spans[0].ink == Ink::Color(Hue::Yellow)
            &&& told == 1 ==> lines[2].stream == Stream::Stderr && lines[2].spans[0].ink
                == Ink::Color(Hue::Yellow)
        }),
        silence_lines(url).len() == 2 + endpoint_hint(url).len(),
        spoken(silence_lines(url)[0], write) == "Error: No streaming data received from endpoint"@,
        spoken(silence_lines(url)[1], write) == "Endpoint: "@ + url,
        silence_lines(url).skip(2) == endpoint_hint(url),
        silence_lines(url)[0].stream == Stream::Stderr && silence_lines(url)[0].spans[0].ink
            == Ink::Color(Hue::Red),
{
    reveal_strlit("Unable to read error");
    let text = answer_text(answer);
    let err = Stream::Stderr;
    let ink = Ink::Plain;
    law_text_is_said_whole(err, ink, Hue::Red, "Error: HTTP "@ + status + " from endpoint"@, write);
    law_text_is_said_whole(err, ink, Hue::Yellow, "Endpoint: "@ + url, write);
    law_text_is_said_whole(err, ink, Hue::Yellow, "Response: "@ + text, write);
    law_text_is_said_whole(
        err,
        ink,
        Hue::Red,
        "Error: No streaming data received from endpoint"@,
        write,
    );
    let lines = status_failure_lines(status, answer, url);
    let told: int = if text.len() > 0 {
        1
    } else {
        0
    };
    assert(lines.skip(2 + told) =~= endpoint_hint(url));
    assert(silence_lines(url).skip(2) =~= endpoint_hint(url));
}

/// A prompt is taken into the conversation as the user's, whole.
pub proof fn law_prompt_is_taken_whole(content: Seq<char>)
    ensures
        user_message(content).role == "user"@,
        user_message(content).content == content,
{
}

} // verus!
