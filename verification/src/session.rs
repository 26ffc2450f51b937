//! A conversation, and how much of the model's context window it takes.
use crate::output::{framed, one, Figure, Line, Stream};
#[allow(unused_imports)]
use crate::output::{
    framed_in, law_lines_say_their_spans, law_spans_say_what_they_hold, line_of, spoken, LineView,
};
use crate::paint::{Hue, Ink};
use crate::text::decimal_text;
#[allow(unused_imports)]
use crate::text::decimal;
#[allow(unused_imports)]
use vstd::utf8::encode_utf8;
use vstd::prelude::*;

verus! {

/// One message of a conversation.
#[derive(Debug, PartialEq, Eq)]
pub struct Message {
    pub role: String,
    pub content: String,
}

/// What a message is.
pub struct MessageView {
    pub role: Seq<char>,
    pub content: Seq<char>,
}

impl View for Message {
    type V = MessageView;

    open spec fn view(&self) -> MessageView {
        MessageView { role: self.role@, content: self.content@ }
    }
}

impl Clone for Message {
    fn clone(&self) -> (r: Message)
        ensures
            r == *self,
    {
        Message { role: self.role.clone(), content: self.content.clone() }
    }
}

/// What each message of a list is.
pub open spec fn messages_of(list: Seq<Message>) -> Seq<MessageView> {
    list.map_values(|m: Message| m@)
}

/// What an optional text holds.
pub open spec fn optional_text(text: Option<String>) -> Option<Seq<char>> {
    match text {
        Some(t) => Some(t@),
        None => None,
    }
}

/// The number of bytes that a text takes.
pub open spec fn byte_count(text: Seq<char>) -> nat {
    encode_utf8(text).len()
}

/// The number of characters of the messages' contents.
pub open spec fn content_length(messages: Seq<MessageView>) -> nat
    decreases messages.len(),
{
    if messages.len() == 0 {
        0
    } else {
        content_length(messages.drop_last()) + messages.last().content.len()
    }
}

/// The number of characters of a conversation with its system prompt.
pub open spec fn session_length(
    messages: Seq<MessageView>,
    system_prompt: Option<Seq<char>>,
) -> nat {
    content_length(messages) + match system_prompt {
        Some(prompt) => prompt.len(),
        None => 0,
    }
}

/// How many tokens a conversation takes, at four characters each.
pub open spec fn token_estimate(
    messages: Seq<MessageView>,
    system_prompt: Option<Seq<char>>,
) -> nat {
    session_length(messages, system_prompt) / 4
}

/// The distance between neighbouring double-precision numbers at the integer `n`.
pub open spec fn double_spacing(n: nat) -> nat
    decreases n,
{
    if n < 0x20_0000_0000_0000 {
        1
    } else {
        2 * double_spacing(n / 2)
    }
}

/// The double-precision number nearest to the integer `n`; of two that are equally near, the
/// one with an even significand.
pub open spec fn nearest_double(n: nat) -> nat {
    let spacing = double_spacing(n);
    let significand = n / spacing;
    let rest = n % spacing;
    if 2 * rest > spacing || (2 * rest == spacing && significand % 2 == 1) {
        (significand + 1) * spacing
    } else {
        significand * spacing
    }
}

/// 0.9 in double precision, in units of its last place: one part in 2 to the power of 53.
pub const NINE_TENTHS: u64 = 0x1c_cccc_cccc_cccd;

/// 0.75 in double precision, in the same units.
pub const THREE_QUARTERS: u64 = 0x18_0000_0000_0000;

/// Whether `count` divided by `limit` in double precision is at least `share`, a number from
/// one half up to one in units of its last place. The quotient of the two nearest doubles is
/// rounded to the nearest one, so it only has to pass the middle between `share` and the
/// double below; the middle itself goes to the even one of the two.
pub open spec fn reaches_share(count: nat, limit: nat, share: nat) -> bool {
    let scaled = nearest_double(count) * 0x40_0000_0000_0000;
    let middle = nearest_double(limit) * (2 * share - 1);
    if share % 2 == 0 {
        scaled >= middle
    } else {
        scaled > middle
    }
}

/// How full a context window is.
#[derive(Clone, Copy, PartialEq, Eq, Structural, Debug)]
pub enum UsageLevel {
    /// Below 75 percent.
    Low,
    /// From 75 percent.
    Notice,
    /// From 90 percent.
    Warning,
}

/// How full a window of `limit` tokens is with `count` of them, by the percentage in double
/// precision. A window of no tokens is full with any token, and not with none.
pub open spec fn usage_level_of(count: nat, limit: nat) -> UsageLevel {
    if limit == 0 {
        if count > 0 {
            UsageLevel::Warning
        } else {
            UsageLevel::Low
        }
    } else if reaches_share(count, limit, NINE_TENTHS as nat) {
        UsageLevel::Warning
    } else if reaches_share(count, limit, THREE_QUARTERS as nat) {
        UsageLevel::Notice
    } else {
        UsageLevel::Low
    }
}

/// What follows the percentage in a message about the context window.
pub open spec fn usage_details(count: nat, actual: bool, limit: nat) -> Seq<char> {
    "% ("@ + (if actual {
        "ACTUAL:"@
    } else {
        "ESTIMATED:"@
    }) + " / "@ + decimal(count) + ") "@ + decimal(limit)
}

/// The message about a context window that is as full as that, where there is one.
pub open spec fn usage_message(count: usize, actual: bool, limit: usize) -> Option<LineView> {
    let figure = Figure::Percent { count, limit };
    let details = usage_details(count as nat, actual, limit as nat);
    match usage_level_of(count as nat, limit as nat) {
        UsageLevel::Warning => Some(
            line_of(
                Stream::Stderr,
                framed_in(
                    Ink::Color(Hue::Yellow),
                    "⚠️  WARNING: Context window usage at "@,
                    figure,
                    details,
                ),
            ),
        ),
        UsageLevel::Notice => Some(
            line_of(
                Stream::Stderr,
                framed_in(
                    Ink::Color(Hue::Yellow),
                    "Notice: Context window usage at "@,
                    figure,
                    details,
                ),
            ),
        ),
        UsageLevel::Low => None,
    }
}

/// The number of bytes that a text takes.
pub fn count_bytes(text: &str) -> (r: usize)
    ensures
        r == byte_count(text@),
{
    text.as_bytes().len()
}

proof fn lemma_content_length_grows(messages: Seq<MessageView>, k: int)
    requires
        0 <= k <= messages.len(),
    ensures
        content_length(messages.take(k)) <= content_length(messages),
    decreases messages.len() - k,
{
    if k == messages.len() {
        assert(messages.take(k) =~= messages);
    } else {
        lemma_content_length_grows(messages, k + 1);
        assert(messages.take(k + 1).drop_last() =~= messages.take(k));
    }
}

/// How many tokens a conversation takes with its system prompt: roughly one for four
/// characters.
pub fn estimate_tokens(messages: &Vec<Message>, system_prompt: &Option<String>) -> (r: usize)
    requires
        session_length(messages_of(messages@), optional_text(*system_prompt)) <= usize::MAX,
    ensures
        r == token_estimate(messages_of(messages@), optional_text(*system_prompt)),
{
    let ghost all = messages_of(messages@);
    let mut total: usize = 0;
    let mut i: usize = 0;
    while i < messages.len()
        invariant
            i <= messages@.len(),
            all == messages_of(messages@),
            content_length(all) <= usize::MAX,
            total == content_length(all.take(i as int)),
        decreases messages@.len() - i,
    {
        proof {
            lemma_content_length_grows(all, i + 1);
            assert(all.take(i + 1).drop_last() =~= all.take(i as int));
            assert(all.take(i + 1).last() == messages@[i as int]@);
        }
        total = total + messages[i].content.as_str().unicode_len();
        i = i + 1;
    }
    assert(all.take(all.len() as int) =~= all);
    if let Some(prompt) = system_prompt {
        total = total + prompt.as_str().unicode_len();
    }
    total / 4
}

proof fn lemma_double_spacing(n: nat)
    ensures
        double_spacing(n) >= 1,
        n >= 0x20_0000_0000_0000 ==> n / double_spacing(n) < 0x20_0000_0000_0000,
        n < 0x1_0000_0000_0000_0000 ==> double_spacing(n) <= 0x800,
    decreases n,
{
    if n >= 0x20_0000_0000_0000 {
        lemma_double_spacing(n / 2);
        lemma_spacing_bound(n);
        let half = double_spacing(n / 2);
        vstd::arithmetic::div_mod::lemma_div_denominator(n as int, 2, half as int);
        if n / 2 < 0x20_0000_0000_0000 {
            assert(half == 1);
        }
    }
}

proof fn lemma_spacing_bound(n: nat)
    ensures
        n < 0x1_0000_0000_0000_0000 ==> double_spacing(n) <= 0x800,
{
    if n < 0x1_0000_0000_0000_0000 {
        reveal_with_fuel(double_spacing, 13);
    }
}

/// The double-precision number nearest to `n`.
fn round_to_double(n: usize) -> (r: u128)
    ensures
        r == nearest_double(n as nat),
        r <= 0x1_0000_0000_0000_0000,
{
    let mut spacing: u128 = 1;
    let mut rest: u128 = n as u128;
    while rest >= 0x20_0000_0000_0000
        invariant
            rest * spacing <= n,
            double_spacing(n as nat) == spacing * double_spacing(rest as nat),
            1 <= spacing <= 0x800,
            rest <= n,
        decreases rest,
    {
        proof {
            lemma_spacing_bound(n as nat);
            lemma_double_spacing((rest / 2) as nat);
            let deeper = double_spacing((rest / 2) as nat);
            assert(double_spacing(rest as nat) == 2 * deeper);
            assert(spacing * (2 * deeper) == (2 * spacing) * deeper) by (nonlinear_arith);
            assert((2 * spacing) * deeper >= 2 * spacing) by (nonlinear_arith)
                requires
                    deeper >= 1,
            ;
            assert((rest / 2) * (2 * spacing) <= rest * spacing) by (nonlinear_arith)
                requires
                    rest >= 0,
                    spacing >= 0,
            ;
        }
        spacing = 2 * spacing;
        rest = rest / 2;
    }
    proof {
        let last = double_spacing(rest as nat);
        assert(spacing * last == spacing) by (nonlinear_arith)
            requires
                last == 1,
        ;
    }
    let whole: u128 = n as u128;
    let significand = whole / spacing;
    let left = whole % spacing;
    proof {
        assert(significand * spacing + left == whole) by (nonlinear_arith)
            requires
                significand == whole / spacing,
                left == whole % spacing,
                spacing >= 1,
        ;
    }
    if 2 * left > spacing || (2 * left == spacing && significand % 2 == 1) {
        proof {
            lemma_rounding_up(n as nat, spacing as nat);
        }
        (significand + 1) * spacing
    } else {
        assert(significand * spacing <= whole) by (nonlinear_arith)
            requires
                significand == whole / spacing,
                spacing >= 1,
        ;
        significand * spacing
    }
}

/// Rounding up to the spacing never passes 2 to the power of 64.
proof fn lemma_rounding_up(n: nat, spacing: nat)
    requires
        n < 0x1_0000_0000_0000_0000,
        spacing == double_spacing(n),
    ensures
        spacing >= 1,
        (n / spacing + 1) * spacing <= 0x1_0000_0000_0000_0000,
{
    lemma_double_spacing(n);
    lemma_spacing_divides(n);
    let whole: nat = 0x1_0000_0000_0000_0000;
    let parts = whole / spacing;
    assert(parts * spacing == whole) by {
        vstd::arithmetic::div_mod::lemma_fundamental_div_mod(whole as int, spacing as int);
        assert(spacing * parts == parts * spacing) by (nonlinear_arith);
    }
    assert(n / spacing < parts) by (nonlinear_arith)
        requires
            n < parts * spacing,
            spacing >= 1,
    ;
    assert((n / spacing + 1) * spacing <= parts * spacing) by (nonlinear_arith)
        requires
            n / spacing + 1 <= parts,
            spacing >= 1,
    ;
}

proof fn lemma_spacing_divides(n: nat)
    requires
        n < 0x1_0000_0000_0000_0000,
    ensures
        0x1_0000_0000_0000_0000nat % double_spacing(n) == 0,
{
    reveal_with_fuel(double_spacing, 13);
    let s = double_spacing(n);
    assert(s == 1 || s == 2 || s == 4 || s == 8 || s == 16 || s == 32 || s == 64 || s == 128 || s
        == 256 || s == 512 || s == 1024 || s == 2048);
}

/// An integer below 2 to the power of 53 is a double itself.
proof fn lemma_small_is_double(n: nat)
    requires
        n < 0x20_0000_0000_0000,
    ensures
        nearest_double(n) == n,
{
    assert(double_spacing(n) == 1);
    assert(n / 1 == n && n % 1 == 0);
    assert(n * 1 == n);
}

/// Whether `count` divided by `limit` in double precision is at least `share`.
fn has_share(count: usize, limit: usize, share: u64) -> (r: bool)
    requires
        0 < share < 0x20_0000_0000_0000,
    ensures
        r == reaches_share(count as nat, limit as nat, share as nat),
{
    let a = round_to_double(count);
    let b = round_to_double(limit);
    let factor = (2 * share - 1) as u128;
    assert(a * 0x40_0000_0000_0000 <= 0x1_0000_0000_0000_0000 * 0x40_0000_0000_0000);
    assert(b * factor <= 0x1_0000_0000_0000_0000 * 0x40_0000_0000_0000) by (nonlinear_arith)
        requires
            0 <= b <= 0x1_0000_0000_0000_0000,
            0 <= factor <= 0x40_0000_0000_0000,
    ;
    let scaled = a * 0x40_0000_0000_0000;
    let middle = b * factor;
    if share % 2 == 0 {
        scaled >= middle
    } else {
        scaled > middle
    }
}

/// How full a window of `limit` tokens is with `count` of them.
pub fn usage_level(count: usize, limit: usize) -> (r: UsageLevel)
    ensures
        r == usage_level_of(count as nat, limit as nat),
{
    if limit == 0 {
        if count > 0 {
            UsageLevel::Warning
        } else {
            UsageLevel::Low
        }
    } else if has_share(count, limit, NINE_TENTHS) {
        UsageLevel::Warning
    } else if has_share(count, limit, THREE_QUARTERS) {
        UsageLevel::Notice
    } else {
        UsageLevel::Low
    }
}

/// What follows the percentage in a message about the context window.
fn write_details(count: usize, actual: bool, limit: usize) -> (r: String)
    ensures
        r@ == usage_details(count as nat, actual, limit as nat),
{
    let mut r = "% (".to_owned();
    r.append(
        if actual {
            "ACTUAL:"
        } else {
            "ESTIMATED:"
        },
    );
    r.append(" / ");
    r.append(decimal_text(count as u64).as_str());
    r.append(") ");
    r.append(decimal_text(limit as u64).as_str());
    r
}

/// Looks at how full the context window is, by the number of tokens that the endpoint
/// reported or by an estimate, and returns the message that is due.
pub fn check_context_usage(
    messages: &Vec<Message>,
    max_tokens: usize,
    actual_total: Option<usize>,
    system_prompt: &Option<String>,
) -> (r: Option<Line>)
    requires
        actual_total is None ==> session_length(
            messages_of(messages@),
            optional_text(*system_prompt),
        ) <= usize::MAX,
    ensures
        ({
            let count = match actual_total {
                Some(n) => n,
                None => token_estimate(
                    messages_of(messages@),
                    optional_text(*system_prompt),
                ) as usize,
            };
            let message = usage_message(count, actual_total is Some, max_tokens);
            &&& r is Some <==> message is Some
            &&& r matches Some(line) ==> message == Some(line@)
        }),
{
    let (count, actual) = match actual_total {
        Some(n) => (n, true),
        None => (estimate_tokens(messages, system_prompt), false),
    };
    let figure = Figure::Percent { count, limit: max_tokens };
    let ink = Ink::Color(Hue::Yellow);
    let details = write_details(count, actual, max_tokens);
    match usage_level(count, max_tokens) {
        UsageLevel::Warning => Some(
            one(
                Stream::Stderr,
                framed(
                    ink,
                    "⚠️  WARNING: Context window usage at ",
                    figure,
                    details.as_str(),
                ),
            ),
        ),
        UsageLevel::Notice => Some(
            one(
                Stream::Stderr,
                framed(ink, "Notice: Context window usage at ", figure, details.as_str()),
            ),
        ),
        UsageLevel::Low => None,
    }
}

/// For windows of any practical size the message is a warning from nine tenths on, and a
/// notice from three quarters on.
pub proof fn law_usage_thresholds(count: nat, limit: nat)
    requires
        0 < limit <= 0x8_0000_0000_0000,
        count < 0x1_0000_0000_0000_0000,
    ensures
        usage_level_of(count, limit) == (if 10 * count >= 9 * limit {
            UsageLevel::Warning
        } else if 4 * count >= 3 * limit {
            UsageLevel::Notice
        } else {
            UsageLevel::Low
        }),
{
    lemma_small_is_double(limit);
    if count < 0x20_0000_0000_0000 {
        lemma_small_is_double(count);
    } else {
        lemma_double_spacing(count);
        let spacing = double_spacing(count);
        vstd::arithmetic::div_mod::lemma_fundamental_div_mod(count as int, spacing as int);
        assert(spacing * (count / spacing) == (count / spacing) * spacing) by (nonlinear_arith);
        assert(((count / spacing) + 1) * spacing == (count / spacing) * spacing + spacing)
            by (nonlinear_arith);
        assert(nearest_double(count) >= count - 0x800);
    }
    lemma_share(count, limit, NINE_TENTHS as nat);
    lemma_share(count, limit, THREE_QUARTERS as nat);
}

/// What it takes to reach a share, with the factor of the limit worked out.
proof fn lemma_share(count: nat, limit: nat, share: nat)
    requires
        share == NINE_TENTHS || share == THREE_QUARTERS,
    ensures
        share == NINE_TENTHS ==> reaches_share(count, limit, share) == (nearest_double(count)
            * 0x40_0000_0000_0000 > nearest_double(limit) * 0x39_9999_9999_9999),
        share == THREE_QUARTERS ==> reaches_share(count, limit, share) == (nearest_double(count)
            * 0x40_0000_0000_0000 >= nearest_double(limit) * 0x2f_ffff_ffff_ffff),
{
    if share == NINE_TENTHS {
        assert(2 * share - 1 == 0x39_9999_9999_9999);
    } else {
        assert(2 * share - 1 == 0x2f_ffff_ffff_ffff);
    }
}

/// A message more never lowers the estimate.
pub proof fn law_estimate_grows(
    messages: Seq<MessageView>,
    message: MessageView,
    system_prompt: Option<Seq<char>>,
)
    ensures
        token_estimate(messages, system_prompt) <= token_estimate(
            messages.push(message),
            system_prompt,
        ),
{
    assert(messages.push(message).drop_last() =~= messages);
}

/// A message more adds the length of its content to that of the conversation, whatever its role,
/// and the system prompt adds its own.
pub proof fn law_every_message_counts(
    messages: Seq<MessageView>,
    message: MessageView,
    prompt: Seq<char>,
    system_prompt: Option<Seq<char>>,
)
    ensures
        session_length(Seq::empty(), None) == 0,
        session_length(messages.push(message), system_prompt) == session_length(
            messages,
            system_prompt,
        ) + message.content.len(),
        session_length(messages, Some(prompt)) == session_length(messages, None) + prompt.len(),
{
    assert(messages.push(message).drop_last() =~= messages);
}

/// The length of a conversation goes by the contents alone: the roles play no part, and two
/// conversations in a row are as long as both.
pub proof fn law_length_goes_by_contents(
    a: Seq<MessageView>,
    b: Seq<MessageView>,
    system_prompt: Option<Seq<char>>,
)
    requires
        a.len() == b.len(),
        forall|i: int| 0 <= i < a.len() ==> (#[trigger] a[i]).content == (#[trigger] b[i]).content,
    ensures
        session_length(a, system_prompt) == session_length(b, system_prompt),
        token_estimate(a, system_prompt) == token_estimate(b, system_prompt),
        session_length(a + b, None) == session_length(a, None) + session_length(b, None),
    decreases a.len(),
{
    lemma_lengths_add_up(a, b);
    if a.len() > 0 {
        assert forall|i: int| 0 <= i < a.drop_last().len() implies (
        #[trigger] a.drop_last()[i]).content == (#[trigger] b.drop_last()[i]).content by {
            assert(a[i].content == b[i].content);
        }
        assert(a[a.len() - 1].content == b[b.len() - 1].content);
        law_length_goes_by_contents(a.drop_last(), b.drop_last(), None);
    }
}

proof fn lemma_lengths_add_up(a: Seq<MessageView>, b: Seq<MessageView>)
    ensures
        content_length(a + b) == content_length(a) + content_length(b),
    decreases b.len(),
{
    if b.len() == 0 {
        assert(a + b =~= a);
    } else {
        lemma_lengths_add_up(a, b.drop_last());
        assert((a + b).drop_last() =~= a + b.drop_last());
    }
}

/// A token is counted for every four characters that are complete, and for no more.
pub proof fn law_token_takes_four_characters(
    messages: Seq<MessageView>,
    system_prompt: Option<Seq<char>>,
)
    ensures
        4 * token_estimate(messages, system_prompt) <= session_length(messages, system_prompt),
        session_length(messages, system_prompt) < 4 * token_estimate(messages, system_prompt) + 4,
{
}

/// A message about the context window comes from three quarters on, and says warning from nine
/// tenths on; it names the number of tokens and the limit in full, and whether the endpoint
/// reported the number. Nothing is said below, and a window of no tokens is full with any.
pub proof fn law_full_window_is_told(
    count: usize,
    actual: bool,
    limit: usize,
    write: spec_fn(Figure) -> Seq<char>,
)
    requires
        limit <= 0x8_0000_0000_0000,
    ensures
        usage_message(count, actual, limit) is None <==> (4 * count < 3 * limit || count == 0
            && limit == 0),
        usage_message(count, actual, limit) matches Some(line) ==> {
            &&& line.stream == Stream::Stderr
            &&& line.spans.len() == 1
            &&& line.spans[0].ink == Ink::Color(Hue::Yellow)
            &&& spoken(line, write) == (if 10 * count >= 9 * limit {
                "⚠️  WARNING: Context window usage at "@
            } else {
                "Notice: Context window usage at "@
            }) + write(Figure::Percent { count, limit }) + "% ("@ + (if actual {
                "ACTUAL:"@
            } else {
                "ESTIMATED:"@
            }) + " / "@ + decimal(count as nat) + ") "@ + decimal(limit as nat)
        },
{
    if limit > 0 {
        law_usage_thresholds(count as nat, limit as nat);
    }
    let figure = Figure::Percent { count, limit };
    let details = usage_details(count as nat, actual, limit as nat);
    let ink = Ink::Color(Hue::Yellow);
    let loud = "⚠️  WARNING: Context window usage at "@;
    let low = "Notice: Context window usage at "@;
    law_spans_say_what_they_hold(ink, loud, figure, details, write);
    law_spans_say_what_they_hold(ink, low, figure, details, write);
    let p = framed_in(ink, loud, figure, details);
    let q = framed_in(ink, low, figure, details);
    law_lines_say_their_spans(Stream::Stderr, p, p, p, write);
    law_lines_say_their_spans(Stream::Stderr, q, q, q, write);
    if let Some(line) = usage_message(count, actual, limit) {
        let first = if 10 * count >= 9 * limit {
            loud
        } else {
            low
        };
        assert(spoken(line, write) == first + write(figure) + details);
        assert(first + write(figure) + details =~= first + write(figure) + "% ("@ + (if actual {
            "ACTUAL:"@
        } else {
            "ESTIMATED:"@
        }) + " / "@ + decimal(count as nat) + ") "@ + decimal(limit as nat));
    }
}

/// Messages are read as they are: each in its place, with its whole role and content. An optional
/// text is its text where there is one.
pub proof fn law_messages_are_read_as_they_are(list: Seq<Message>, i: int, text: String)
    ensures
        messages_of(list).len() == list.len(),
        0 <= i < list.len() ==> messages_of(list)[i].role == list[i].role@
            && messages_of(list)[i].content == list[i].content@,
        optional_text(Some(text)) == Some(text@),
        optional_text(None) is None,
        byte_count(text@) == encode_utf8(text@).len(),
{
}

proof fn lemma_spacing_is_small(n: nat)
    ensures
        double_spacing(n) >= 1,
        n >= 0x20_0000_0000_0000 ==> double_spacing(n) * 0x10_0000_0000_0000 <= n,
        n < 0x20_0000_0000_0000 ==> double_spacing(n) == 1,
    decreases n,
{
    if n >= 0x20_0000_0000_0000 {
        lemma_spacing_is_small(n / 2);
    }
}

/// The nearest double lies close to the number.
proof fn lemma_double_is_near(n: nat)
    ensures
        0x10_0000_0000_0000 * nearest_double(n) <= 0x10_0000_0000_0001 * n,
        0x10_0000_0000_0000 * nearest_double(n) >= 0x0f_ffff_ffff_ffff * n,
{
    lemma_spacing_is_small(n);
    if n < 0x20_0000_0000_0000 {
        lemma_small_is_double(n);
    } else {
        let s = double_spacing(n);
        let q = n / s;
        let r = n % s;
        vstd::arithmetic::div_mod::lemma_fundamental_div_mod(n as int, s as int);
        assert(s * q == q * s) by (nonlinear_arith);
        assert((q + 1) * s == q * s + s) by (nonlinear_arith);
        assert(r < s);
        assert(nearest_double(n) <= n + s);
        assert(nearest_double(n) + s >= n);
    }
}

/// For windows of every size the message is a warning well above nine tenths and none well below
/// three quarters, and in between it goes from notice to warning: double precision blurs the two
/// marks by less than one part in a hundred.
pub proof fn law_usage_is_told_for_all_sizes(count: nat, limit: nat)
    requires
        limit > 0,
    ensures
        100 * count >= 91 * limit ==> usage_level_of(count, limit) is Warning,
        100 * count <= 89 * limit ==> !(usage_level_of(count, limit) is Warning),
        76 * limit <= 100 * count <= 89 * limit ==> usage_level_of(count, limit) is Notice,
        100 * count <= 74 * limit ==> usage_level_of(count, limit) is Low,
        usage_level_of(0, 0) is Low,
        count > 0 ==> usage_level_of(count, 0) is Warning,
{
    lemma_double_is_near(count);
    lemma_double_is_near(limit);
    lemma_share(count, limit, NINE_TENTHS as nat);
    lemma_share(count, limit, THREE_QUARTERS as nat);
}

} // verus!
