//! Colours for the terminal.
use crate::text::{chars_of, concat, stands_at};
#[allow(unused_imports)]
use crate::text::{contains_word, decimal, ends_with_word};
use vstd::prelude::*;

verus! {

/// A basic terminal colour.
#[derive(Clone, Copy, PartialEq, Eq, Structural, Debug)]
pub enum Hue {
    Black,
    Red,
    Green,
    Yellow,
    Blue,
    Cyan,
    White,
}

/// How a piece of text is shown.
#[derive(Clone, Copy, PartialEq, Eq, Structural, Debug)]
pub enum Ink {
    /// As it is.
    Plain,
    /// In a colour.
    Color(Hue),
    /// In a colour and bold.
    Bold(Hue),
    /// Faint.
    Dimmed,
    /// In the grey of a code block's fence.
    Fence,
    /// In black on the light grey of inline code.
    Code,
}

/// The level of grey that a fence is shown in.
pub const FENCE_GREY: u8 = 100;

/// The level of grey behind inline code.
pub const CODE_GREY: u8 = 230;

/// The code that selects a colour for the text.
pub open spec fn hue_code(hue: Hue) -> Seq<char> {
    match hue {
        Hue::Black => "30"@,
        Hue::Red => "31"@,
        Hue::Green => "32"@,
        Hue::Yellow => "33"@,
        Hue::Blue => "34"@,
        Hue::Cyan => "36"@,
        Hue::White => "37"@,
    }
}

/// The sequence that ends all colours.
pub open spec fn reset() -> Seq<char> {
    "\u{1b}[0m"@
}

/// `text` with `style` behind each sequence in it that ends all colours.
pub open spec fn reopened(text: Seq<char>, style: Seq<char>) -> Seq<char>
    decreases text.len(),
{
    if text.len() == 0 {
        text
    } else if reset().len() > 0 && reset().is_prefix_of(text) {
        reset() + style + reopened(text.skip(reset().len() as int), style)
    } else {
        seq![text[0]] + reopened(text.skip(1), style)
    }
}

/// The sequence that selects the given codes.
pub open spec fn style_of(codes: Seq<char>) -> Seq<char> {
    "\u{1b}["@ + codes + "m"@
}

/// `text` under the given codes. Where colours within it end, the codes are selected anew.
pub open spec fn painted(text: Seq<char>, codes: Seq<char>) -> Seq<char> {
    style_of(codes) + reopened(text, style_of(codes)) + reset()
}

/// The code of a colour by its red, green and blue parts, behind `lead`.
pub open spec fn true_code(lead: Seq<char>, r: u8, g: u8, b: u8) -> Seq<char> {
    lead + ";2;"@ + decimal(r as nat) + ";"@ + decimal(g as nat) + ";"@ + decimal(b as nat)
}

/// The red, green and blue parts of the sixteen basic colours, in the order of their codes.
pub open spec fn basic_parts() -> Seq<(int, int, int)> {
    seq![
        (0, 0, 0),
        (205, 0, 0),
        (0, 205, 0),
        (205, 205, 0),
        (0, 0, 238),
        (205, 0, 205),
        (0, 205, 205),
        (229, 229, 229),
        (127, 127, 127),
        (255, 0, 0),
        (0, 255, 0),
        (255, 255, 0),
        (92, 92, 255),
        (255, 0, 255),
        (0, 255, 255),
        (255, 255, 255),
    ]
}

/// How far a colour by its parts is from a basic one.
pub open spec fn basic_distance(n: int, r: u8, g: u8, b: u8) -> int {
    let (x, y, z) = basic_parts()[n];
    (r - x) * (r - x) + (g - y) * (g - y) + (b - z) * (b - z)
}

/// The first of the basic colours that are nearest to one by its parts.
pub open spec fn is_nearest_basic(n: int, r: u8, g: u8, b: u8) -> bool {
    &&& 0 <= n < 16
    &&& forall|m: int|
        0 <= m < 16 ==> basic_distance(n, r, g, b) <= #[trigger] basic_distance(m, r, g, b)
    &&& forall|m: int|
        0 <= m < n ==> basic_distance(n, r, g, b) < #[trigger] basic_distance(m, r, g, b)
}

/// The code of a basic colour: eight from `first` on, and eight more from sixty further on.
pub open spec fn basic_code(first: nat, n: int) -> Seq<char> {
    decimal(
        if n < 8 {
            (first + n) as nat
        } else {
            (first + 60 + n - 8) as nat
        },
    )
}

/// A code that selects a colour by its parts for the text, or on a terminal without such
/// colours the nearest basic one.
pub open spec fn is_foreground(codes: Seq<char>, r: u8, g: u8, b: u8) -> bool {
    ||| codes == true_code("38"@, r, g, b)
    ||| exists|n: int| #[trigger] is_nearest_basic(n, r, g, b) && codes == basic_code(30, n)
}

/// A code that selects a colour by its parts behind the text, or on a terminal without such
/// colours the nearest basic one.
pub open spec fn is_background(codes: Seq<char>, r: u8, g: u8, b: u8) -> bool {
    ||| codes == true_code("48"@, r, g, b)
    ||| exists|n: int| #[trigger] is_nearest_basic(n, r, g, b) && codes == basic_code(40, n)
}

/// What a terminal can show.
#[derive(Debug, PartialEq, Eq)]
pub struct Palette {
    /// Whether colours are on.
    pub on: bool,
    /// The code of the grey that a fence is shown in.
    pub fence: String,
    /// The code of the grey behind inline code.
    pub behind_code: String,
}

/// What a terminal can show.
pub struct PaletteView {
    pub on: bool,
    pub fence: Seq<char>,
    pub behind_code: Seq<char>,
}

impl View for Palette {
    type V = PaletteView;

    open spec fn view(&self) -> PaletteView {
        PaletteView { on: self.on, fence: self.fence@, behind_code: self.behind_code@ }
    }
}

/// The codes of an ink.
pub open spec fn ink_codes(ink: Ink, palette: PaletteView) -> Seq<char> {
    match ink {
        Ink::Plain => Seq::empty(),
        Ink::Color(hue) => hue_code(hue),
        Ink::Bold(hue) => "1;"@ + hue_code(hue),
        Ink::Dimmed => "2"@,
        Ink::Fence => palette.fence,
        Ink::Code => palette.behind_code + ";"@ + hue_code(Hue::Black),
    }
}

/// `text` in the given ink where colours are on, and as it is where they are off.
pub open spec fn inked(text: Seq<char>, ink: Ink, palette: PaletteView) -> Seq<char> {
    if palette.on && ink != Ink::Plain {
        painted(text, ink_codes(ink, palette))
    } else {
        text
    }
}

/// Calls `colored::control::ShouldColorize::should_colorize` on `SHOULD_COLORIZE`, which goes by
/// the terminal, the environment and a switch of the process. Nothing is said of the outcome.
#[verifier::external_body]
fn should_colorize() -> bool {
    colored::control::SHOULD_COLORIZE.should_colorize()
}

/// Calls `colored::Color::to_fg_str` on a colour by its parts: it gives the code of that colour,
/// or of the nearest basic one. Which of the two depends on the environment and is left unsaid.
#[verifier::external_body]
fn foreground_code(red: u8, green: u8, blue: u8) -> (r: String)
    ensures
        is_foreground(r@, red, green, blue),
{
    colored::Color::TrueColor { r: red, g: green, b: blue }.to_fg_str().into_owned()
}

/// Calls `colored::Color::to_bg_str` on a colour by its parts: it gives the code of that colour,
/// or of the nearest basic one. Which of the two depends on the environment and is left unsaid.
#[verifier::external_body]
fn background_code(red: u8, green: u8, blue: u8) -> (r: String)
    ensures
        is_background(r@, red, green, blue),
{
    colored::Color::TrueColor { r: red, g: green, b: blue }.to_bg_str().into_owned()
}

/// Whether this is what `should_colorize` may answer.
pub closed spec fn is_answer(on: bool) -> bool {
    call_ensures(should_colorize, (), on)
}

/// Whether these are what `foreground_code` may answer for a fence, and `background_code` for
/// inline code.
pub closed spec fn are_codes_of_greys(fence: String, behind_code: String) -> bool {
    &&& call_ensures(foreground_code, (FENCE_GREY, FENCE_GREY, FENCE_GREY), fence)
    &&& call_ensures(background_code, (CODE_GREY, CODE_GREY, CODE_GREY), behind_code)
}

/// Asks for the code of a grey and returns it.
fn ask_for_grey<F: Fn(u8, u8, u8) -> String>(question: F, grey: u8) -> (r: String)
    requires
        call_requires(question, (grey, grey, grey)),
    ensures
        call_ensures(question, (grey, grey, grey), r),
{
    question(grey, grey, grey)
}

/// Asks a question and returns its answer.
fn ask<F: Fn() -> bool>(question: F) -> (r: bool)
    requires
        call_requires(question, ()),
    ensures
        call_ensures(question, (), r),
{
    question()
}

/// What this terminal can show, as `colored` decides by the terminal and the environment.
pub fn palette() -> (r: Palette)
    ensures
        is_answer(r.on),
        are_codes_of_greys(r.fence, r.behind_code),
        is_foreground(r.fence@, FENCE_GREY, FENCE_GREY, FENCE_GREY),
        is_background(r.behind_code@, CODE_GREY, CODE_GREY, CODE_GREY),
{
    Palette {
        on: ask(should_colorize),
        fence: ask_for_grey(foreground_code, FENCE_GREY),
        behind_code: ask_for_grey(background_code, CODE_GREY),
    }
}

/// The code that selects a colour for the text.
fn code_of(hue: Hue) -> (r: &'static str)
    ensures
        r@ == hue_code(hue),
{
    match hue {
        Hue::Black => "30",
        Hue::Red => "31",
        Hue::Green => "32",
        Hue::Yellow => "33",
        Hue::Blue => "34",
        Hue::Cyan => "36",
        Hue::White => "37",
    }
}

/// `text` with `style` behind each sequence in it that ends all colours.
fn reopen(text: &str, style: &str) -> (r: String)
    ensures
        r@ == reopened(text@, style@),
{
    proof {
        reveal_strlit("\u{1b}[0m");
    }
    let chars = chars_of(text);
    let end = chars_of("\u{1b}[0m");
    let total = chars.len();
    let width = end.len();
    let mut r = String::new();
    let mut i: usize = 0;
    assert(text@.skip(0) =~= text@);
    assert(r@ + reopened(text@, style@) =~= reopened(text@, style@));
    while i < total
        invariant
            chars@ == text@,
            end@ == reset(),
            total == text@.len(),
            width == reset().len(),
            width == 4,
            i <= total,
            r@ + reopened(text@.skip(i as int), style@) == reopened(text@, style@),
        decreases total - i,
    {
        let ghost rest = text@.skip(i as int);
        let ghost before = r@;
        if width <= total - i && stands_at(&chars, i, &end) {
            r.append("\u{1b}[0m");
            r.append(style);
            proof {
                assert(text@.subrange(i as int, i + width) =~= rest.take(width as int));
                assert(rest.skip(width as int) =~= text@.skip(i + width));
                let later = reopened(text@.skip(i + width), style@);
                assert(before + (reset() + style@ + later) =~= r@ + later);
            }
            i = i + width;
        } else {
            r.push(chars[i]);
            proof {
                if width <= total - i {
                    assert(text@.subrange(i as int, i + width) =~= rest.take(width as int));
                }
                assert(rest.skip(1) =~= text@.skip(i + 1));
                let later = reopened(text@.skip(i + 1), style@);
                assert(before + (seq![rest[0]] + later) =~= r@ + later);
            }
            i = i + 1;
        }
    }
    assert(text@.skip(i as int) =~= Seq::empty());
    assert(r@ + Seq::<char>::empty() =~= r@);
    r
}

/// `text` under the given codes.
fn under(codes: &str, text: &str) -> (r: String)
    ensures
        r@ == painted(text@, codes@),
{
    let style = concat(concat("\u{1b}[", codes).as_str(), "m");
    let mut r = style.clone();
    r.append(reopen(text, style.as_str()).as_str());
    r.append("\u{1b}[0m");
    r
}

/// `text` as a terminal is to show it in the given ink.
pub fn paint(ink: Ink, text: &str, palette: &Palette) -> (r: String)
    ensures
        r@ == inked(text@, ink, palette@),
{
    if !palette.on {
        return text.to_owned();
    }
    match ink {
        Ink::Plain => text.to_owned(),
        Ink::Color(hue) => under(code_of(hue), text),
        Ink::Bold(hue) => under(concat("1;", code_of(hue)).as_str(), text),
        Ink::Dimmed => under("2", text),
        Ink::Fence => under(palette.fence.as_str(), text),
        Ink::Code => {
            let back = concat(palette.behind_code.as_str(), ";");
            under(concat(back.as_str(), code_of(Hue::Black)).as_str(), text)
        },
    }
}

/// Where colours are on, every ink but the plain one shows, and its colours end with the text.
/// Where they are off, no ink does.
pub proof fn law_ink_shows_where_colors_are_on(text: Seq<char>, ink: Ink, palette: PaletteView)
    ensures
        !palette.on ==> inked(text, ink, palette) == text,
        palette.on && ink != Ink::Plain ==> {
            &&& inked(text, ink, palette) != text
            &&& style_of(ink_codes(ink, palette)).is_prefix_of(inked(text, ink, palette))
            &&& ends_with_word(inked(text, ink, palette), reset())
        },
{
    if palette.on && ink != Ink::Plain {
        reveal_strlit("\u{1b}[0m");
        reveal_strlit("\u{1b}[");
        reveal_strlit("m");
        let style = style_of(ink_codes(ink, palette));
        let out = inked(text, ink, palette);
        lemma_reopened_is_no_shorter(text, style);
        assert(out.take(style.len() as int) =~= style);
        assert(out.skip(out.len() - reset().len()) =~= reset());
        assert(out.len() > text.len());
    }
}

/// A terminal shows the two greys by their parts, or a fence in bright black and inline code on
/// white.
pub proof fn law_greys_have_two_codes(codes: Seq<char>)
    ensures
        is_foreground(codes, FENCE_GREY, FENCE_GREY, FENCE_GREY) <==> codes == "38;2;100;100;100"@
            || codes == "90"@,
        is_background(codes, CODE_GREY, CODE_GREY, CODE_GREY) <==> codes == "48;2;230;230;230"@
            || codes == "47"@,
{
    reveal_strlit("38");
    reveal_strlit("48");
    reveal_strlit(";2;");
    reveal_strlit(";");
    reveal_strlit("38;2;100;100;100");
    reveal_strlit("48;2;230;230;230");
    reveal_strlit("90");
    reveal_strlit("47");
    reveal_with_fuel(decimal, 4);
    assert(true_code("38"@, FENCE_GREY, FENCE_GREY, FENCE_GREY) =~= "38;2;100;100;100"@);
    assert(true_code("48"@, CODE_GREY, CODE_GREY, CODE_GREY) =~= "48;2;230;230;230"@);
    assert(basic_code(30, 8) =~= "90"@);
    assert(basic_code(40, 7) =~= "47"@);
    lemma_grey_is_nearest(8, FENCE_GREY, 27, 100);
    lemma_grey_is_nearest(7, CODE_GREY, -1, 25);
    assert(is_nearest_basic(8, FENCE_GREY, FENCE_GREY, FENCE_GREY));
    assert(is_nearest_basic(7, CODE_GREY, CODE_GREY, CODE_GREY));
}

/// Whether a difference is at least `far`, either way.
spec fn is_far(d: int, far: int) -> bool {
    d <= -far || far <= d
}

/// The basic colour `n` alone is nearest to a grey where its parts are `near` above the grey, and
/// every other basic colour has a part that is `far` from it.
proof fn lemma_grey_is_nearest(n: int, grey: u8, near: int, far: int)
    requires
        0 <= n < 16,
        basic_parts()[n] == (grey + near, grey + near, grey + near),
        -far < 2 * near < far,
        forall|m: int|
            0 <= m < 16 && m != n ==> {
                let (x, y, z) = #[trigger] basic_parts()[m];
                is_far(grey - x, far) || is_far(grey - y, far) || is_far(grey - z, far)
            },
    ensures
        forall|m: int| #[trigger] is_nearest_basic(m, grey, grey, grey) <==> m == n,
{
    lemma_square_of_less(-near, far);
    assert forall|m: int| 0 <= m < 16 && m != n implies basic_distance(n, grey, grey, grey)
        < #[trigger] basic_distance(m, grey, grey, grey) by {
        let (x, y, z) = basic_parts()[m];
        lemma_square_of_far(grey - x, far);
        lemma_square_of_far(grey - y, far);
        lemma_square_of_far(grey - z, far);
    }
    assert forall|m: int| #[trigger] is_nearest_basic(m, grey, grey, grey) implies m == n by {
        assert(basic_distance(m, grey, grey, grey) <= basic_distance(n, grey, grey, grey));
    }
}

proof fn lemma_square_of_far(d: int, far: int)
    by (nonlinear_arith)
    requires
        0 <= far,
    ensures
        d * d >= 0,
        d <= -far || far <= d ==> d * d >= far * far,
{
}

proof fn lemma_square_of_less(d: int, far: int)
    by (nonlinear_arith)
    requires
        -far < 2 * d < far,
    ensures
        d * d >= 0,
        4 * (d * d) < far * far,
{
}

proof fn lemma_reopened_is_no_shorter(text: Seq<char>, style: Seq<char>)
    ensures
        reopened(text, style).len() >= text.len(),
    decreases text.len(),
{
    if text.len() > 0 {
        if reset().len() > 0 && reset().is_prefix_of(text) {
            lemma_reopened_is_no_shorter(text.skip(reset().len() as int), style);
        } else {
            lemma_reopened_is_no_shorter(text.skip(1), style);
        }
    }
}

/// A text in which no colours end stands unchanged between the codes of its ink and the end of all
/// colours. Where colours end within a text, its own codes are selected anew behind that.
pub proof fn law_ink_surrounds_text(a: Seq<char>, b: Seq<char>, ink: Ink, palette: PaletteView)
    requires
        palette.on,
        ink != Ink::Plain,
        !contains_word(a, "\u{1b}[0m"@),
    ensures
        inked(a, ink, palette) == "\u{1b}["@ + ink_codes(ink, palette) + "m"@ + a + "\u{1b}[0m"@,
        inked(a + "\u{1b}[0m"@ + b, ink, palette) == "\u{1b}["@ + ink_codes(ink, palette) + "m"@ + a
            + "\u{1b}[0m"@ + inked(b, ink, palette),
{
    let style = style_of(ink_codes(ink, palette));
    lemma_nothing_to_reopen(a, style);
    lemma_reopened_behind(a, b, style);
    assert(inked(a + reset() + b, ink, palette) =~= style + a + reset() + inked(b, ink, palette));
}

/// Each ink is shown by its own codes: those of a colour, of a colour and bold, or of faint text.
pub proof fn law_inks_have_their_codes(palette: PaletteView)
    ensures
        ink_codes(Ink::Color(Hue::Black), palette) == "30"@,
        ink_codes(Ink::Color(Hue::Red), palette) == "31"@,
        ink_codes(Ink::Color(Hue::Green), palette) == "32"@,
        ink_codes(Ink::Color(Hue::Yellow), palette) == "33"@,
        ink_codes(Ink::Color(Hue::Blue), palette) == "34"@,
        ink_codes(Ink::Color(Hue::Cyan), palette) == "36"@,
        ink_codes(Ink::Color(Hue::White), palette) == "37"@,
        forall|hue: Hue| #[trigger]
            ink_codes(Ink::Bold(hue), palette) == "1;"@ + ink_codes(Ink::Color(hue), palette),
        ink_codes(Ink::Dimmed, palette) == "2"@,
        ink_codes(Ink::Fence, palette) == palette.fence,
        ink_codes(Ink::Code, palette) == palette.behind_code + ";30"@,
{
    reveal_strlit(";");
    reveal_strlit("30");
    reveal_strlit(";30");
    assert(";"@ + "30"@ =~= ";30"@);
    assert(ink_codes(Ink::Code, palette) =~= palette.behind_code + (";"@ + "30"@));
}

proof fn lemma_behind_holds_none(text: Seq<char>)
    requires
        text.len() > 0,
        !contains_word(text, reset()),
    ensures
        !contains_word(text.skip(1), reset()),
{
    let rest = text.skip(1);
    let n = reset().len();
    if contains_word(rest, reset()) {
        let i = choose|i: int| 0 <= i <= rest.len() - n && #[trigger] rest.subrange(i, i + n) == reset();
        assert(text.subrange(i + 1, i + 1 + n) =~= rest.subrange(i, i + n));
    }
}

/// A text without the escape character has no colours that could end in it.
pub proof fn lemma_no_escape_no_reset(text: Seq<char>)
    requires
        !text.contains('\u{1b}'),
    ensures
        !contains_word(text, reset()),
{
    reveal_strlit("\u{1b}[0m");
    let n = reset().len();
    if contains_word(text, reset()) {
        let i = choose|i: int| 0 <= i <= text.len() - n && #[trigger] text.subrange(i, i + n) == reset();
        assert(text.subrange(i, i + n)[0] == text[i]);
        assert(text.contains(text[i]));
    }
}

proof fn lemma_nothing_to_reopen(text: Seq<char>, style: Seq<char>)
    requires
        !contains_word(text, reset()),
    ensures
        reopened(text, style) == text,
    decreases text.len(),
{
    if text.len() > 0 {
        if reset().is_prefix_of(text) {
            assert(text.subrange(0, 0 + reset().len() as int) =~= reset());
        }
        lemma_behind_holds_none(text);
        lemma_nothing_to_reopen(text.skip(1), style);
        assert(seq![text[0]] + text.skip(1) =~= text);
    }
}

proof fn lemma_reopened_behind(a: Seq<char>, b: Seq<char>, style: Seq<char>)
    requires
        !contains_word(a, reset()),
    ensures
        reopened(a + reset() + b, style) == a + reset() + style + reopened(b, style),
    decreases a.len(),
{
    reveal_strlit("\u{1b}[0m");
    let whole = a + reset() + b;
    if a.len() == 0 {
        assert(whole =~= reset() + b);
        assert(whole.take(reset().len() as int) =~= reset());
        assert(whole.skip(reset().len() as int) =~= b);
        assert(reopened(whole, style) =~= a + reset() + style + reopened(b, style));
    } else {
        assert(whole[0] == a[0]);
        if reset().is_prefix_of(whole) {
            if a.len() >= 4 {
                assert(a.subrange(0, 0 + reset().len() as int) =~= reset());
            } else {
                assert(whole[a.len() as int] == reset()[0]);
                assert(whole[a.len() as int] == reset()[a.len() as int]);
            }
        }
        lemma_behind_holds_none(a);
        lemma_reopened_behind(a.skip(1), b, style);
        assert(whole.skip(1) =~= a.skip(1) + reset() + b);
        assert(reopened(whole, style) =~= a + reset() + style + reopened(b, style));
    }
}

/// An ink within another: the inner codes stand behind the outer ones, and where the inner colours
/// end the outer codes are selected anew.
pub proof fn law_ink_within_ink(
    text: Seq<char>,
    after: Seq<char>,
    inner: Ink,
    outer: Ink,
    palette: PaletteView,
)
    requires
        palette.on,
        inner != Ink::Plain,
        outer != Ink::Plain,
        !text.contains('\u{1b}'),
        !after.contains('\u{1b}'),
        !ink_codes(inner, palette).contains('\u{1b}'),
        ink_codes(inner, palette).len() > 0 && ink_codes(inner, palette)[0] != '0',
    ensures
        inked(inked(text, inner, palette) + after, outer, palette) == style_of(
            ink_codes(outer, palette),
        ) + style_of(ink_codes(inner, palette)) + text + reset() + style_of(
            ink_codes(outer, palette),
        ) + after + reset(),
{
    let codes = ink_codes(inner, palette);
    let outside = style_of(ink_codes(outer, palette));
    lemma_no_escape_no_reset(text);
    law_ink_surrounds_text(text, Seq::empty(), inner, palette);
    let within = style_of(codes) + text + reset();
    assert(inked(text, inner, palette) == within);
    lemma_reopened_within(codes, text, after, outside);
    let shown = within + outside + after;
    assert(outside + shown + reset() =~= outside + style_of(codes) + text + reset() + outside + after
        + reset());
}

proof fn lemma_reopened_within(
    codes: Seq<char>,
    text: Seq<char>,
    after: Seq<char>,
    outside: Seq<char>,
)
    requires
        !text.contains('\u{1b}'),
        !after.contains('\u{1b}'),
        !codes.contains('\u{1b}'),
        codes.len() > 0,
        codes[0] != '0',
    ensures
        reopened(style_of(codes) + text + reset() + after, outside) == style_of(codes) + text
            + reset() + outside + after,
{
    reveal_strlit("\u{1b}[0m");
    reveal_strlit("\u{1b}[");
    reveal_strlit("m");
    let front = seq!['['] + codes + seq!['m'] + text;
    let whole = style_of(codes) + text + reset() + after;
    assert(style_of(codes) + text =~= seq!['\u{1b}'] + front);
    assert(whole.skip(1) =~= front + reset() + after);
    assert forall|i: int| 0 <= i < front.len() implies front[i] != '\u{1b}' by {
        if 1 <= i < 1 + codes.len() {
            assert(front[i] == codes[i - 1]);
            assert(codes.contains(codes[i - 1]));
        } else if i >= codes.len() + 2 {
            assert(front[i] == text[i - codes.len() - 2]);
            assert(text.contains(text[i - codes.len() - 2]));
        }
    }
    assert(whole[0] == '\u{1b}');
    assert(whole[2] == codes[0]);
    if reset().is_prefix_of(whole) {
        assert(reset()[2] == whole[2]);
    }
    lemma_no_escape_no_reset(front);
    lemma_no_escape_no_reset(after);
    lemma_reopened_behind(front, after, outside);
    lemma_nothing_to_reopen(after, outside);
    let rest = front + reset() + outside + after;
    assert(reopened(whole, outside) == seq![whole[0]] + rest);
    assert(seq!['\u{1b}'] + rest =~= (seq!['\u{1b}'] + front) + reset() + outside + after);
}

/// A palette is read as it is.
pub proof fn law_palette_is_read_as_it_is(palette: Palette)
    ensures
        palette@.on == palette.on,
        palette@.fence == palette.fence@,
        palette@.behind_code == palette.behind_code@,
{
}

} // verus!
