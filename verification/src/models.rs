//! The models that an endpoint offers.
use crate::json::{parse_json_bytes, Json};
#[allow(unused_imports)]
use crate::json::{json_bytes_document, JsonModel, JsonNumber};
#[allow(unused_imports)]
use crate::order::is_sorting_of;
use crate::order::sort_texts;
use crate::output::{hued, ink_text, one, plain, say, Line, Span, Stream};
#[allow(unused_imports)]
use crate::output::{
    hued_text, law_text_is_said_whole, line_of, lines_of, pieces_from, plain_text, said, spans_from,
    spoken, text_in, Figure, LineView,
};
use crate::paint::{Hue, Ink};
#[allow(unused_imports)]
use crate::session::optional_text;
use crate::text::{concat, same_text};
#[allow(unused_imports)]
use crate::text::texts;
use vstd::prelude::*;

verus! {

/// The address of the list of models.
pub open spec fn models_url_of(endpoint: Seq<char>) -> Seq<char> {
    endpoint + "/models"@
}

/// The address of the list of models.
pub fn models_url(endpoint: &str) -> (r: String)
    ensures
        r@ == models_url_of(endpoint@),
{
    concat(endpoint, "/models")
}

/// What the `Authorization` header says for a key.
pub open spec fn bearer_of(key: Seq<char>) -> Seq<char> {
    "Bearer "@ + key
}

/// What the `Authorization` header says for a key.
pub fn bearer(key: &str) -> (r: String)
    ensures
        r@ == bearer_of(key@),
{
    concat("Bearer ", key)
}

/// The fields that may give the size of a model's context window, in the order in which they
/// are looked at.
pub open spec fn window_fields() -> Seq<Seq<char>> {
    seq![
        "context_window"@,
        "max_tokens"@,
        "context_length"@,
        "max_model_len"@,
        "max_position_embeddings"@,
    ]
}

/// The number in the first of the fields that holds one.
pub open spec fn first_number(entry: JsonModel, fields: Seq<Seq<char>>) -> Option<u64>
    decreases fields.len(),
{
    if fields.len() == 0 {
        None
    } else {
        match entry.member(fields[0]) {
            Some(value) => match value.unsigned() {
                Some(n) => Some(n),
                None => first_number(entry, fields.skip(1)),
            },
            None => first_number(entry, fields.skip(1)),
        }
    }
}

/// The name of a model by its entry.
pub open spec fn id_of(entry: JsonModel) -> Option<Seq<char>> {
    match entry.member("id"@) {
        Some(id) => id.text(),
        None => None,
    }
}

/// The size of a model's context window by the first of its entries that gives one. The search
/// ends at an entry without a name.
pub open spec fn window_in_entries(entries: Seq<JsonModel>, model: Seq<char>) -> Option<u64>
    decreases entries.len(),
{
    if entries.len() == 0 {
        None
    } else {
        match id_of(entries[0]) {
            None => None,
            Some(id) => if id == model && first_number(entries[0], window_fields()) is Some {
                first_number(entries[0], window_fields())
            } else {
                window_in_entries(entries.skip(1), model)
            },
        }
    }
}

/// The entries of a list of models.
pub open spec fn entries_of(doc: JsonModel) -> Option<Seq<JsonModel>> {
    match doc.member("data"@) {
        Some(data) => data.items(),
        None => None,
    }
}

/// The size of a model's context window by a list of models.
pub open spec fn window_of(doc: JsonModel, model: Seq<char>) -> Option<u64> {
    match entries_of(doc) {
        Some(entries) => window_in_entries(entries, model),
        None => None,
    }
}

/// The names of the entries that have one.
pub open spec fn ids_of(entries: Seq<JsonModel>) -> Seq<Seq<char>>
    decreases entries.len(),
{
    if entries.len() == 0 {
        Seq::empty()
    } else {
        match id_of(entries.last()) {
            Some(id) => ids_of(entries.drop_last()).push(id),
            None => ids_of(entries.drop_last()),
        }
    }
}

/// The names of the models of a list.
pub open spec fn names_of(doc: JsonModel) -> Seq<Seq<char>> {
    match entries_of(doc) {
        Some(entries) => ids_of(entries),
        None => Seq::empty(),
    }
}

/// The number that a field holds, where it holds one.
fn number_in(entry: &Json, field: &str) -> (r: Option<u64>)
    ensures
        r == match entry.model().member(field@) {
            Some(value) => value.unsigned(),
            None => None,
        },
{
    match entry.get(field) {
        Some(value) => value.as_u64(),
        None => None,
    }
}

/// The size of a context window by a model's entry.
fn window_in(entry: &Json) -> (r: Option<u64>)
    ensures
        r == first_number(entry.model(), window_fields()),
{
    let fields: Vec<&'static str> = vec![
        "context_window",
        "max_tokens",
        "context_length",
        "max_model_len",
        "max_position_embeddings",
    ];
    let ghost all = window_fields();
    let mut i: usize = 0;
    assert(all.skip(0) =~= all);
    while i < fields.len()
        invariant
            i <= fields@.len(),
            fields@.len() == all.len(),
            forall|k: int| 0 <= k < all.len() ==> (#[trigger] fields@[k])@ == all[k],
            first_number(entry.model(), window_fields()) == first_number(
                entry.model(),
                all.skip(i as int),
            ),
        decreases fields@.len() - i,
    {
        let n = number_in(entry, fields[i]);
        assert(all.skip(i as int)[0] == fields@[i as int]@);
        assert(all.skip(i as int).skip(1) =~= all.skip(i + 1));
        if n.is_some() {
            return n;
        }
        i = i + 1;
    }
    None
}

/// The name of a model by its entry.
fn id_in(entry: &Json) -> (r: Option<&str>)
    ensures
        r is Some <==> id_of(entry.model()) is Some,
        r matches Some(id) ==> id_of(entry.model()) == Some(id@),
{
    match entry.get("id") {
        Some(id) => id.as_str(),
        None => None,
    }
}

/// The entries of a list of models.
fn entries_in(doc: &Json) -> (r: Option<&Vec<Json>>)
    ensures
        r is Some <==> entries_of(doc.model()) is Some,
        r matches Some(list) ==> {
            &&& list@.len() == entries_of(doc.model())->0.len()
            &&& forall|i: int|
                0 <= i < list@.len() ==> (#[trigger] list@[i]).model() == entries_of(
                    doc.model(),
                )->0[i]
        },
{
    match doc.get("data") {
        Some(data) => data.as_array(),
        None => None,
    }
}

/// The size of a model's context window by a list of models.
pub fn find_context_window(doc: &Json, model: &str) -> (r: Option<usize>)
    ensures
        r == match window_of(doc.model(), model@) {
            Some(n) => Some(n as usize),
            None => None,
        },
{
    match entries_in(doc) {
        None => None,
        Some(list) => {
            let ghost all = entries_of(doc.model())->0;
            let mut i: usize = 0;
            assert(all.skip(0) =~= all);
            while i < list.len()
                invariant
                    i <= list@.len(),
                    list@.len() == all.len(),
                    forall|k: int| 0 <= k < all.len() ==> (#[trigger] list@[k]).model() == all[k],
                    window_of(doc.model(), model@) == window_in_entries(
                        all.skip(i as int),
                        model@,
                    ),
                decreases list@.len() - i,
            {
                assert(all.skip(i as int)[0] == list@[i as int].model());
                assert(all.skip(i as int).skip(1) =~= all.skip(i + 1));
                match id_in(&list[i]) {
                    None => {
                        return None;
                    },
                    Some(id) => {
                        if same_text(id, model) {
                            if let Some(n) = window_in(&list[i]) {
                                return Some(n as usize);
                            }
                        }
                    },
                }
                i = i + 1;
            }
            None
        },
    }
}

/// The size of a model's context window by what the endpoint answered to a request for its
/// models.
pub fn fetch_model_context_window(answer: &[u8], model: &str) -> (r: Option<usize>)
    ensures
        r == match json_bytes_document(answer@) {
            Some(doc) => match window_of(doc, model@) {
                Some(n) => Some(n as usize),
                None => None,
            },
            None => None,
        },
{
    match parse_json_bytes(answer) {
        Some(doc) => find_context_window(&doc, model),
        None => None,
    }
}

/// The names of the models of a list, in order.
pub fn sorted_names(doc: &Json) -> (r: Vec<String>)
    ensures
        is_sorting_of(texts(r@), names_of(doc.model())),
{
    let mut names: Vec<String> = Vec::new();
    assert(texts(names@) =~= Seq::empty());
    if let Some(list) = entries_in(doc) {
        let ghost all = entries_of(doc.model())->0;
        let mut i: usize = 0;
        while i < list.len()
            invariant
                i <= list@.len(),
                list@.len() == all.len(),
                forall|k: int| 0 <= k < all.len() ==> (#[trigger] list@[k]).model() == all[k],
                texts(names@) == ids_of(all.take(i as int)),
            decreases list@.len() - i,
        {
            let ghost before = texts(names@);
            assert(all.take(i + 1).drop_last() =~= all.take(i as int));
            assert(all.take(i + 1).last() == list@[i as int].model());
            if let Some(id) = id_in(&list[i]) {
                names.push(id.to_owned());
                assert(texts(names@) =~= before.push(id@));
            }
            i = i + 1;
        }
        assert(all.take(all.len() as int) =~= all);
    }
    sort_texts(names)
}

/// The names of the models by what the endpoint answered to a request for them, in order, where
/// the answer is a document at all.
pub fn list_models(answer: &[u8]) -> (r: Option<Vec<String>>)
    ensures
        r is Some <==> json_bytes_document(answer@) is Some,
        r matches Some(list) ==> is_sorting_of(
            texts(list@),
            names_of(json_bytes_document(answer@)->0),
        ),
{
    match parse_json_bytes(answer) {
        Some(doc) => Some(sorted_names(&doc)),
        None => None,
    }
}

/// The text of an answer, where it could be read.
pub open spec fn answer_text(answer: Option<Seq<char>>) -> Seq<char> {
    match answer {
        Some(text) => text,
        None => "Unable to read error"@,
    }
}

/// The text of an answer, where it could be read.
pub fn read_answer(answer: Option<String>) -> (r: String)
    ensures
        r@ == answer_text(optional_text(answer)),
{
    match answer {
        Some(text) => text,
        None => "Unable to read error".to_owned(),
    }
}

/// What is said of an answer with a status that is none of success.
pub open spec fn status_error_of(status: Seq<char>, answer: Option<Seq<char>>) -> Seq<char> {
    "HTTP "@ + status + " from endpoint: "@ + answer_text(answer)
}

/// What is said of an answer with a status that is none of success.
pub fn status_error(status: &str, answer: Option<String>) -> (r: String)
    ensures
        r@ == status_error_of(status@, optional_text(answer)),
{
    let mut r = "HTTP ".to_owned();
    r.append(status);
    r.append(" from endpoint: ");
    r.append(read_answer(answer).as_str());
    r
}

/// Whether a model is listed. Without a list, or with an empty one, nothing is known.
pub fn validate_model(listing: &Option<Vec<String>>, model: &str) -> (r: Option<bool>)
    ensures
        r == match *listing {
            Some(list) => if list@.len() > 0 {
                Some(texts(list@).contains(model@))
            } else {
                None
            },
            None => None,
        },
{
    match listing {
        Some(list) => {
            if list.len() == 0 {
                return None;
            }
            let mut i: usize = 0;
            while i < list.len()
                invariant
                    i <= list@.len(),
                    list@.len() > 0,
                    *listing == Some(*list),
                    forall|k: int| 0 <= k < i ==> (#[trigger] list@[k])@ != model@,
                decreases list@.len() - i,
            {
                if same_text(list[i].as_str(), model) {
                    assert(texts(list@)[i as int] == model@);
                    return Some(true);
                }
                i = i + 1;
            }
            assert(!texts(list@).contains(model@)) by {
                assert forall|k: int| 0 <= k < list@.len() implies texts(list@)[k] != model@ by {
                    assert(texts(list@)[k] == list@[k]@);
                }
            }
            Some(false)
        },
        None => None,
    }
}

/// A model counts as listed by what the endpoint answered, whatever the order of its entries.
pub proof fn law_listed_by_name(sorted: Seq<Seq<char>>, doc: JsonModel, model: Seq<char>)
    requires
        is_sorting_of(sorted, names_of(doc)),
    ensures
        sorted.contains(model) <==> names_of(doc).contains(model),
        sorted.len() == names_of(doc).len(),
{
    vstd::seq_lib::to_multiset_contains(sorted, model);
    vstd::seq_lib::to_multiset_contains(names_of(doc), model);
    vstd::seq_lib::to_multiset_len(sorted);
    vstd::seq_lib::to_multiset_len(names_of(doc));
}

/// The warning that a model is not listed.
pub open spec fn model_warning_of(stream: Stream, model: Seq<char>) -> LineView {
    line_of(
        stream,
        hued_text(
            Hue::Yellow,
            "Warning: Model '"@ + model
                + "' is not in the endpoint's model list. Use /models to list available models."@,
        ),
    )
}

/// The warning that is due where a model is known not to be listed.
pub fn model_warning(stream: Stream, model: &str, listed: Option<bool>) -> (r: Option<Line>)
    ensures
        r is Some <==> listed == Some(false),
        r matches Some(line) ==> line@ == model_warning_of(stream, model@),
{
    match listed {
        Some(false) => {
            let mut text = "Warning: Model '".to_owned();
            text.append(model);
            text.append(
                "' is not in the endpoint's model list. Use /models to list available models.",
            );
            Some(one(stream, hued(Hue::Yellow, text.as_str())))
        },
        _ => None,
    }
}

/// A model in the list that is shown; the current one is marked.
pub open spec fn model_entry(name: Seq<char>, current: Seq<char>) -> LineView {
    if name == current {
        LineView {
            stream: Stream::Stdout,
            spans: seq![
                plain_text("  "@),
                text_in(Ink::Bold(Hue::Green), "*"@),
                plain_text(" "@),
                hued_text(Hue::Cyan, name),
            ],
        }
    } else {
        said("    "@ + name)
    }
}

/// What is shown of the models that an endpoint offers.
pub open spec fn models_report_of(names: Seq<Seq<char>>, current: Seq<char>) -> Seq<LineView> {
    if names.len() == 0 {
        seq![said("No models found at endpoint."@)]
    } else {
        seq![line_of(Stream::Stdout, text_in(Ink::Bold(Hue::Green), "Available Models:"@))]
            + names.map_values(|name: Seq<char>| model_entry(name, current))
    }
}

/// What is shown where the models could not be had.
pub open spec fn models_failure_of(reason: Seq<char>) -> LineView {
    line_of(Stream::Stderr, hued_text(Hue::Red, "Error fetching models: "@ + reason))
}

/// What is shown where the models could not be had.
pub fn models_failure(reason: &str) -> (r: Line)
    ensures
        r@ == models_failure_of(reason@),
{
    one(Stream::Stderr, hued(Hue::Red, concat("Error fetching models: ", reason).as_str()))
}

/// A model in the list that is shown.
fn show_model(name: &str, current: &str) -> (r: Line)
    ensures
        r@ == model_entry(name@, current@),
{
    if same_text(name, current) {
        let list: Vec<Span> = vec![
            plain("  "),
            ink_text(Ink::Bold(Hue::Green), "*"),
            plain(" "),
            hued(Hue::Cyan, name),
        ];
        let r = Line { stream: Stream::Stdout, spans: list };
        assert(r@.spans =~= model_entry(name@, current@).spans);
        r
    } else {
        say(concat("    ", name).as_str())
    }
}

/// What is shown of the models that an endpoint offers.
pub fn models_report(names: &Vec<String>, current: &str) -> (r: Vec<Line>)
    ensures
        lines_of(r@) == models_report_of(texts(names@), current@),
{
    let mut r: Vec<Line> = Vec::new();
    if names.len() == 0 {
        r.push(say("No models found at endpoint."));
        assert(lines_of(r@) =~= models_report_of(texts(names@), current@));
        return r;
    }
    let ghost all = models_report_of(texts(names@), current@);
    r.push(one(Stream::Stdout, ink_text(Ink::Bold(Hue::Green), "Available Models:")));
    let mut i: usize = 0;
    assert(lines_of(r@) =~= all.take(1));
    while i < names.len()
        invariant
            i <= names@.len(),
            names@.len() > 0,
            all == models_report_of(texts(names@), current@),
            all.len() == names@.len() + 1,
            lines_of(r@) == all.take(i + 1),
        decreases names@.len() - i,
    {
        let ghost before = lines_of(r@);
        let line = show_model(names[i].as_str(), current);
        r.push(line);
        assert(texts(names@)[i as int] == names@[i as int]@);
        assert(all[i + 1] == line@);
        assert(lines_of(r@) =~= before.push(line@));
        assert(lines_of(r@) =~= all.take(i + 2));
        i = i + 1;
    }
    assert(all.take(all.len() as int) =~= all);
    r
}

/// Every entry with a name is listed, by its whole name and in its turn, whatever else it has; an
/// entry without one is passed over.
pub proof fn law_every_named_model_counts(
    entries: Seq<JsonModel>,
    entry: JsonModel,
    name: Seq<char>,
    doc: JsonModel,
)
    ensures
        ids_of(Seq::empty()).len() == 0,
        entry.member("id"@) == Some(JsonModel::Text(name)) ==> ids_of(entries.push(entry)) == ids_of(
            entries,
        ).push(name),
        !(entry.member("id"@) matches Some(id) && id is Text) ==> ids_of(entries.push(entry))
            == ids_of(entries),
        doc.member("data"@) == Some(JsonModel::Array(entries)) ==> names_of(doc) == ids_of(entries),
        !(doc.member("data"@) matches Some(data) && data is Array) ==> names_of(doc).len() == 0,
{
    assert(entries.push(entry).drop_last() =~= entries);
}

/// A name is listed where an entry has it, and only there.
pub proof fn law_listed_names_are_those_of_entries(entries: Seq<JsonModel>, name: Seq<char>)
    ensures
        ids_of(entries).contains(name) <==> exists|i: int|
            0 <= i < entries.len() && (#[trigger] entries[i]).member("id"@) == Some(
                JsonModel::Text(name),
            ),
        ids_of(entries).len() <= entries.len(),
    decreases entries.len(),
{
    if entries.len() > 0 {
        let front = entries.drop_last();
        law_listed_names_are_those_of_entries(front, name);
        let last = entries.last();
        assert(entries[entries.len() - 1] == last);
        let before = ids_of(front);
        let all = ids_of(entries);
        if before.contains(name) {
            let k = choose|k: int| 0 <= k < before.len() && before[k] == name;
            assert(all[k] == name);
            let i = choose|i: int|
                0 <= i < front.len() && (#[trigger] front[i]).member("id"@) == Some(
                    JsonModel::Text(name),
                );
            assert(entries[i] == front[i]);
        }
        if last.member("id"@) == Some(JsonModel::Text(name)) {
            assert(all[all.len() - 1] == name);
        }
        if all.contains(name) && !before.contains(name) {
            let k = choose|k: int| 0 <= k < all.len() && all[k] == name;
            assert(k == before.len());
        }
        if exists|i: int|
            0 <= i < entries.len() && (#[trigger] entries[i]).member("id"@) == Some(
                JsonModel::Text(name),
            ) {
            let i = choose|i: int|
                0 <= i < entries.len() && (#[trigger] entries[i]).member("id"@) == Some(
                    JsonModel::Text(name),
                );
            if i < front.len() {
                assert(front[i] == entries[i]);
            }
        }
    }
}

/// The unsigned integer that an entry has under a key, where it has one.
pub open spec fn number_under(entry: JsonModel, key: Seq<char>) -> Option<u64> {
    match entry.member(key) {
        Some(JsonModel::Number(JsonNumber::Unsigned(n))) => Some(n),
        _ => None,
    }
}

/// The size of a window is looked for under five keys, one after the other: the first that holds
/// an unsigned integer gives it.
pub proof fn law_window_is_under_first_key(entry: JsonModel)
    ensures
        ({
            let a = number_under(entry, "context_window"@);
            let b = number_under(entry, "max_tokens"@);
            let c = number_under(entry, "context_length"@);
            let d = number_under(entry, "max_model_len"@);
            let e = number_under(entry, "max_position_embeddings"@);
            let found = first_number(entry, window_fields());
            &&& a is Some ==> found == a
            &&& a is None && b is Some ==> found == b
            &&& a is None && b is None && c is Some ==> found == c
            &&& a is None && b is None && c is None && d is Some ==> found == d
            &&& a is None && b is None && c is None && d is None ==> found == e
        }),
{
    let all = window_fields();
    reveal_with_fuel(first_number, 7);
    assert(all.skip(1)[0] == all[1]);
    assert(all.skip(1).skip(1) =~= all.skip(2));
    assert(all.skip(2).skip(1) =~= all.skip(3));
    assert(all.skip(3).skip(1) =~= all.skip(4));
    assert(all.skip(4).skip(1) =~= all.skip(5));
}

/// Whether the search for a model's window goes on behind an entry: it has a name, and it is not
/// the model's or gives no size.
pub open spec fn search_goes_on(entry: JsonModel, model: Seq<char>) -> bool {
    exists|id: Seq<char>| #[trigger]
        entry.member("id"@) == Some(JsonModel::Text(id)) && (id != model || first_number(
            entry,
            window_fields(),
        ) is None)
}

/// The size of a model's window is that of the first entry with the model's whole name that gives
/// one. An entry without a name ends the search.
pub proof fn law_window_is_of_the_named_model(
    entries: Seq<JsonModel>,
    model: Seq<char>,
    i: int,
    n: u64,
    doc: JsonModel,
)
    requires
        0 <= i <= entries.len(),
        forall|j: int| 0 <= j < i ==> search_goes_on(#[trigger] entries[j], model),
    ensures
        i == entries.len() ==> window_in_entries(entries, model) is None,
        i < entries.len() && entries[i].member("id"@) == Some(JsonModel::Text(model))
            && first_number(entries[i], window_fields()) == Some(n) ==> window_in_entries(
            entries,
            model,
        ) == Some(n),
        i < entries.len() && !(entries[i].member("id"@) matches Some(id) && id is Text)
            ==> window_in_entries(entries, model) is None,
        doc.member("data"@) == Some(JsonModel::Array(entries)) ==> window_of(doc, model)
            == window_in_entries(entries, model),
        !(doc.member("data"@) matches Some(data) && data is Array) ==> window_of(doc, model) is None,
    decreases entries.len(),
{
    if i > 0 {
        let rest = entries.skip(1);
        assert forall|j: int| 0 <= j < i - 1 implies search_goes_on(#[trigger] rest[j], model) by {
            assert(rest[j] == entries[j + 1]);
        }
        assert(search_goes_on(entries[0], model));
        law_window_is_of_the_named_model(rest, model, i - 1, n, doc);
        if i < entries.len() {
            assert(rest[i - 1] == entries[i]);
        }
    }
}

/// The list of models has a line for each, in their order and with its whole name; the current one
/// is marked, and no other.
pub proof fn law_models_are_shown_by_name(
    names: Seq<Seq<char>>,
    current: Seq<char>,
    i: int,
    write: spec_fn(Figure) -> Seq<char>,
)
    requires
        0 <= i < names.len(),
    ensures
        models_report_of(names, current).len() == names.len() + 1,
        spoken(models_report_of(names, current)[0], write) == "Available Models:"@,
        spoken(models_report_of(names, current)[i + 1], write) == (if names[i] == current {
            "  * "@
        } else {
            "    "@
        }) + names[i],
        models_report_of(names, current)[i + 1].stream == Stream::Stdout,
        models_report_of(Seq::empty(), current).len() == 1,
        spoken(models_report_of(Seq::empty(), current)[0], write) == "No models found at endpoint."@,
{
    let out = Stream::Stdout;
    let hue = Hue::Green;
    law_text_is_said_whole(out, Ink::Bold(hue), hue, "Available Models:"@, write);
    law_text_is_said_whole(out, Ink::Bold(hue), hue, "No models found at endpoint."@, write);
    law_text_is_said_whole(out, Ink::Bold(hue), hue, "    "@ + names[i], write);
    if names[i] == current {
        reveal_with_fuel(spans_from, 6);
        reveal_with_fuel(pieces_from, 3);
        reveal_strlit("  ");
        reveal_strlit("*");
        reveal_strlit(" ");
        reveal_strlit("  * ");
        assert("  "@ + "*"@ + " "@ =~= "  * "@);
        let line = model_entry(names[i], current);
        assert(spoken(line, write) =~= "  "@ + "*"@ + " "@ + names[i]);
    }
}

/// Addresses, warnings and failures name what they are about in full.
pub proof fn law_models_are_asked_and_told_in_full(
    endpoint: Seq<char>,
    stream: Stream,
    model: Seq<char>,
    status: Seq<char>,
    answer: Seq<char>,
    write: spec_fn(Figure) -> Seq<char>,
)
    ensures
        models_url_of(endpoint).take(endpoint.len() as int) == endpoint,
        models_url_of(endpoint).skip(endpoint.len() as int) == "/models"@,
        spoken(model_warning_of(stream, model), write) == "Warning: Model '"@ + model
            + "' is not in the endpoint's model list. Use /models to list available models."@,
        model_warning_of(stream, model).stream == stream,
        model_warning_of(stream, model).spans[0].ink == Ink::Color(Hue::Yellow),
        models_failure_of(answer).spans[0].ink == Ink::Color(Hue::Red),
        spoken(models_failure_of(answer), write) == "Error fetching models: "@ + answer,
        models_failure_of(answer).stream == Stream::Stderr,
        answer_text(Some(answer)) == answer,
        status_error_of(status, Some(answer)) == "HTTP "@ + status + " from endpoint: "@ + answer,
        status_error_of(status, None) == "HTTP "@ + status
            + " from endpoint: "@ + "Unable to read error"@,
{
    assert(models_url_of(endpoint).take(endpoint.len() as int) =~= endpoint);
    assert(models_url_of(endpoint).skip(endpoint.len() as int) =~= "/models"@);
    law_text_is_said_whole(
        stream,
        Ink::Plain,
        Hue::Yellow,
        "Warning: Model '"@ + model
            + "' is not in the endpoint's model list. Use /models to list available models."@,
        write,
    );
    law_text_is_said_whole(
        Stream::Stderr,
        Ink::Plain,
        Hue::Red,
        "Error fetching models: "@ + answer,
        write,
    );
}

} // verus!
