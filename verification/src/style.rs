//! Styled text: what is printed, and in which colour and weight.

use crossterm::style::{Attribute, Attributes, Color, ContentStyle};
use vstd::prelude::*;

verus! {

/// The colours that the program prints in.
#[derive(Debug, Clone, Copy)]
pub enum Colour {
    Red,
    Green,
    Yellow,
    Cyan,
    DarkGrey,
}

/// How heavy the letters are.
#[derive(Debug, Clone, Copy)]
pub enum Weight {
    Normal,
    Bold,
}

/// A colour, where one is set, and a weight.
#[derive(Debug, Clone, Copy)]
pub struct Style {
    pub colour: Option<Colour>,
    pub weight: Weight,
}

/// A run of text. Where `style` is `None` the text is written as it is, else it
/// is displayed in the style.
#[derive(Debug)]
pub struct Span {
    pub text: String,
    pub style: Option<Style>,
}

/// What a [`Span`] says.
pub struct SpanView {
    pub text: Seq<char>,
    pub style: Option<Style>,
}

impl View for Span {
    type V = SpanView;

    open spec fn view(&self) -> SpanView {
        SpanView { text: self.text@, style: self.style }
    }
}

impl DeepView for Span {
    type V = SpanView;

    open spec fn deep_view(&self) -> SpanView {
        self@
    }
}

/// Text that is written as it is.
pub open spec fn plain(text: Seq<char>) -> SpanView {
    SpanView { text, style: None }
}

/// Text in a colour and a weight.
pub open spec fn styled(text: Seq<char>, colour: Colour, weight: Weight) -> SpanView {
    SpanView { text, style: Some(Style { colour: Some(colour), weight }) }
}

/// The ways in which styled text is displayed.
pub enum Output {
    /// With escape sequences. Those before and those behind the text may or may
    /// not name a colour.
    Escapes { coloured_before: bool, coloured_behind: bool },
    /// On a console without escape sequences, which is sent nothing.
    Console,
}

/// The sequence that switches to a colour of the palette.
pub open spec fn colour_sequence(colour: Colour) -> Seq<char> {
    match colour {
        Colour::Red => "\x1b[38;5;9m"@,
        Colour::Green => "\x1b[38;5;10m"@,
        Colour::Yellow => "\x1b[38;5;11m"@,
        Colour::Cyan => "\x1b[38;5;14m"@,
        Colour::DarkGrey => "\x1b[38;5;8m"@,
    }
}

/// The sequences that stand before styled text.
pub open spec fn opening(style: Style, coloured: bool) -> Seq<char> {
    let colour = match style.colour {
        None => ""@,
        Some(colour) => if coloured {
            colour_sequence(colour)
        } else {
            "\x1b[m"@
        },
    };
    let weight = match style.weight {
        Weight::Normal => ""@,
        Weight::Bold => "\x1b[1m"@,
    };
    colour + weight
}

/// The sequence that stands behind styled text.
pub open spec fn closing(style: Style, coloured: bool) -> Seq<char> {
    match (style.weight, style.colour) {
        (Weight::Bold, _) => "\x1b[0m"@,
        (Weight::Normal, Some(_)) => if coloured {
            "\x1b[39m"@
        } else {
            "\x1b[m"@
        },
        (Weight::Normal, None) => ""@,
    }
}

/// Styled text as it is displayed.
pub open spec fn painted(output: Output, text: Seq<char>, style: Style) -> Seq<char> {
    match output {
        Output::Escapes { coloured_before, coloured_behind } => opening(style, coloured_before)
            + text + closing(style, coloured_behind),
        Output::Console => Seq::empty(),
    }
}

/// The text that `crossterm` displays for `text` under a `ContentStyle`. Which
/// it is depends on the machine. With escape sequences, those that set and reset
/// the colour name it or, while colours are switched off (by the variable
/// `NO_COLOR` or by a call), do not; this is looked up anew before and behind the
/// text. On a Windows console without escape sequences `crossterm` displays
/// nothing at all. The contract says that the text is one of these.
#[verifier::external_body]
fn paint(text: &String, style: Style) -> (out: String)
    ensures
        exists|output: Output| out@ == #[trigger] painted(output, text@, style),
{
    let mut content = ContentStyle::new();
    content.foreground_color = match style.colour {
        None => None,
        Some(Colour::Red) => Some(Color::Red),
        Some(Colour::Green) => Some(Color::Green),
        Some(Colour::Yellow) => Some(Color::Yellow),
        Some(Colour::Cyan) => Some(Color::Cyan),
        Some(Colour::DarkGrey) => Some(Color::DarkGrey),
    };
    content.attributes = match style.weight {
        Weight::Normal => Attributes::none(),
        Weight::Bold => Attributes::none().with(Attribute::Bold),
    };
    format!("{}", content.apply(text))
}

/// Whether `piece` is what `crossterm` displayed for `text` in `style`, when it
/// was called for it.
pub closed spec fn displayed(text: Seq<char>, style: Style, piece: Seq<char>) -> bool {
    exists|given: String, out: String| #[trigger]
        call_ensures(paint, (&given, style), out) && given@ == text && out@ == piece
}

/// Nothing counts as displayed but what came of displaying that very text in that
/// very style.
proof fn only_what_was_displayed_counts(text: Seq<char>, style: Style, piece: Seq<char>)
    ensures
        displayed(text, style, piece) <==> exists|given: String, out: String| #[trigger]
            call_ensures(paint, (&given, style), out) && given@ == text && out@ == piece,
{
}

/// Whether `piece` is `span` as it is sent to the screen.
pub open spec fn shown(span: SpanView, piece: Seq<char>) -> bool {
    match span.style {
        None => piece == span.text,
        Some(style) => {
            &&& displayed(span.text, style, piece)
            &&& exists|output: Output| piece == #[trigger] painted(output, span.text, style)
        },
    }
}

/// The first `n` pieces, one behind the other.
pub open spec fn put_together(pieces: Seq<Seq<char>>, n: nat) -> Seq<char>
    decreases n,
{
    if n == 0 {
        Seq::empty()
    } else {
        put_together(pieces, (n - 1) as nat) + pieces[n - 1]
    }
}

/// Whether `pieces` are `spans` as they are sent to the screen.
pub open spec fn all_shown(spans: Seq<SpanView>, pieces: Seq<Seq<char>>) -> bool {
    &&& pieces.len() == spans.len()
    &&& forall|i: int| 0 <= i < spans.len() ==> shown(spans[i], #[trigger] pieces[i])
}

/// Whether `text` is `spans` as they are sent to the screen, one behind the
/// other.
pub open spec fn is_painting(text: Seq<char>, spans: Seq<SpanView>) -> bool {
    exists|pieces: Seq<Seq<char>>| #[trigger]
        all_shown(spans, pieces) && text == put_together(pieces, pieces.len())
}

/// Calls `paint` on the given text and style.
fn call_paint<P>(paint: P, text: &String, style: Style) -> (out: String) where
    P: Fn(&String, Style) -> String,

    requires
        call_requires(paint, (text, style)),
    ensures
        call_ensures(paint, (text, style), out),
{
    paint(text, style)
}

/// A span as it is sent to the screen.
fn show(span: &Span) -> (piece: String)
    ensures
        shown(span@, piece@),
{
    match span.style {
        None => span.text.clone(),
        Some(style) => call_paint(paint, &span.text, style),
    }
}

/// The text of `spans` in their styles.
pub fn paint_all(spans: &Vec<Span>) -> (text: String)
    ensures
        is_painting(text@, spans.deep_view()),
{
    let ghost all = spans.deep_view();
    let ghost mut pieces = Seq::<Seq<char>>::empty();
    let mut text = String::new();
    let mut done: usize = 0;
    while done < spans.len()
        invariant
            done <= spans.len(),
            all == spans.deep_view(),
            pieces.len() == done,
            forall|i: int| 0 <= i < done ==> shown(all[i], #[trigger] pieces[i]),
            text@ == put_together(pieces, done as nat),
        decreases spans.len() - done,
    {
        let piece = show(&spans[done]);
        text.append(piece.as_str());
        proof {
            let before = pieces;
            pieces = pieces.push(piece@);
            putting_together_looks_back(before, pieces, done as nat);
            assert(all[done as int] == spans[done as int]@);
        }
        done = done + 1;
    }
    assert(all_shown(all, pieces));
    text
}

/// What the first pieces make depends on them alone.
proof fn putting_together_looks_back(left: Seq<Seq<char>>, right: Seq<Seq<char>>, n: nat)
    requires
        n <= left.len(),
        n <= right.len(),
        forall|i: int| 0 <= i < n ==> left[i] == right[i],
    ensures
        put_together(left, n) == put_together(right, n),
    decreases n,
{
    if n > 0 {
        putting_together_looks_back(left, right, (n - 1) as nat);
    }
}

} // verus!
