//! ANSI terminal text styling with composable escape codes.
//!
//! A [`StyledText`] keeps the original text, the ordered styles applied
//! to it, and the reset code that closes the sequence; rendering yields
//! the escape codes in insertion order, then the text, then the reset.

use vstd::prelude::*;
use vstd::string::StringExecFns;

verus! {

/// ANSI escape codes for styling terminal text: RGB true-color codes
/// for the palette, SGR codes for the decorations, and the reset.
#[derive(Clone, Copy, Debug, PartialEq, Eq, Structural)]
pub enum AnsiCode {
    /// Reset all styles to terminal defaults.
    Reset,
    /// Red text.
    Red,
    /// Green text.
    Green,
    /// Yellow text.
    Yellow,
    /// Purple text.
    Purple,
    /// Cyan text.
    Cyan,
    /// Gray text.
    Gray,
    /// Bold / increased intensity.
    Bold,
    /// Underlined text.
    Underline,
}

/// The escape sequence each code stands for.
pub open spec fn spec_escape(c: AnsiCode) -> Seq<char> {
    match c {
        AnsiCode::Reset => "\x1b[0m"@,
        AnsiCode::Red => "\x1b[38;2;255;85;85m"@,
        AnsiCode::Green => "\x1b[38;2;80;250;123m"@,
        AnsiCode::Yellow => "\x1b[38;2;241;250;140m"@,
        AnsiCode::Purple => "\x1b[38;2;189;147;249m"@,
        AnsiCode::Cyan => "\x1b[38;2;139;233;253m"@,
        AnsiCode::Gray => "\x1b[38;2;136;136;136m"@,
        AnsiCode::Bold => "\x1b[1m"@,
        AnsiCode::Underline => "\x1b[4m"@,
    }
}

impl AnsiCode {
    /// The raw escape sequence for this code.
    pub fn escape_code(&self) -> (r: &'static str)
        ensures
            r@ == spec_escape(*self),
    {
        match self {
            AnsiCode::Reset => "\x1b[0m",
            AnsiCode::Red => "\x1b[38;2;255;85;85m",
            AnsiCode::Green => "\x1b[38;2;80;250;123m",
            AnsiCode::Yellow => "\x1b[38;2;241;250;140m",
            AnsiCode::Purple => "\x1b[38;2;189;147;249m",
            AnsiCode::Cyan => "\x1b[38;2;139;233;253m",
            AnsiCode::Gray => "\x1b[38;2;136;136;136m",
            AnsiCode::Bold => "\x1b[1m",
            AnsiCode::Underline => "\x1b[4m",
        }
    }
}

/// Ghost shape of a styled text.
#[verifier::ext_equal]
pub struct StyledView {
    pub value: Seq<char>,
    pub styles: Seq<AnsiCode>,
    pub reset: AnsiCode,
}

/// The concatenation of the escape sequences of the given codes, in
/// order.
pub open spec fn spec_codes(styles: Seq<AnsiCode>) -> Seq<char>
    decreases styles.len(),
{
    if styles.len() == 0 {
        Seq::empty()
    } else {
        spec_codes(styles.drop_last()) + spec_escape(styles.last())
    }
}

/// What a styled text renders to: all styles, the value, the reset.
pub open spec fn spec_render(v: StyledView) -> Seq<char> {
    spec_codes(v.styles) + v.value + spec_escape(v.reset)
}

/// Composable text styling container: the original value, the ordered
/// styling codes, and the reset applied after the value.
pub struct StyledText {
    pub value: String,
    pub styles: Vec<AnsiCode>,
    pub reset: AnsiCode,
}

impl View for StyledText {
    type V = StyledView;

    open spec fn view(&self) -> StyledView {
        StyledView { value: self.value@, styles: self.styles@, reset: self.reset }
    }
}

impl StyledText {
    /// New styled text carrying one initial style and the automatic
    /// reset.
    pub fn new(value: String, style: AnsiCode) -> (r: Self)
        ensures
            r@.value == value@,
            r@.styles == seq![style],
            r@.reset == AnsiCode::Reset,
    {
        let mut styles: Vec<AnsiCode> = Vec::new();
        styles.push(style);
        let r = StyledText { value, styles, reset: AnsiCode::Reset };
        proof {
            assert(r@.styles =~= seq![style]);
        }
        r
    }

    /// Adds bold to the style stack and returns the text for chaining.
    pub fn bold(self) -> (r: Self)
        ensures
            r@.value == self@.value,
            r@.reset == self@.reset,
            r@.styles == self@.styles.push(AnsiCode::Bold),
    {
        let mut s = self;
        s.styles.push(AnsiCode::Bold);
        s
    }

    /// Adds underline to the style stack and returns the text for
    /// chaining.
    pub fn underline(self) -> (r: Self)
        ensures
            r@.value == self@.value,
            r@.reset == self@.reset,
            r@.styles == self@.styles.push(AnsiCode::Underline),
    {
        let mut s = self;
        s.styles.push(AnsiCode::Underline);
        s
    }

    /// Renders the styled text: every style's escape code in insertion
    /// order, the value, then the reset code.
    pub fn render(&self) -> (r: String)
        ensures
            r@ == spec_render(self@),
    {
        let mut out = String::new();
        let n = self.styles.len();
        let mut i: usize = 0;
        while i < n
            invariant
                i <= n,
                n == self.styles.len(),
                out@ == spec_codes(self.styles@.take(i as int)),
            decreases n - i,
        {
            out.append(self.styles[i].escape_code());
            proof {
                assert(self.styles@.take(i as int + 1).drop_last() =~= self.styles@.take(i as int));
                assert(self.styles@.take(i as int + 1).last() == self.styles@[i as int]);
            }
            i += 1;
        }
        proof {
            assert(self.styles@.take(n as int) =~= self.styles@);
        }
        out.append(self.value.as_str());
        out.append(self.reset.escape_code());
        out
    }
}

/// Styling entry points for displayable text: each method wraps the
/// value in a [`StyledText`] carrying the matching colour.
pub trait Colorize: Sized + View<V = Seq<char>> {
    /// Wraps the value in red styling.
    fn red(self) -> (r: StyledText)
        ensures
            r@.value == self@,
            r@.styles == seq![AnsiCode::Red],
            r@.reset == AnsiCode::Reset,
    ;

    /// Wraps the value in green styling.
    fn green(self) -> (r: StyledText)
        ensures
            r@.value == self@,
            r@.styles == seq![AnsiCode::Green],
            r@.reset == AnsiCode::Reset,
    ;

    /// Wraps the value in yellow styling.
    fn yellow(self) -> (r: StyledText)
        ensures
            r@.value == self@,
            r@.styles == seq![AnsiCode::Yellow],
            r@.reset == AnsiCode::Reset,
    ;

    /// Wraps the value in purple styling.
    fn purple(self) -> (r: StyledText)
        ensures
            r@.value == self@,
            r@.styles == seq![AnsiCode::Purple],
            r@.reset == AnsiCode::Reset,
    ;

    /// Wraps the value in cyan styling.
    fn cyan(self) -> (r: StyledText)
        ensures
            r@.value == self@,
            r@.styles == seq![AnsiCode::Cyan],
            r@.reset == AnsiCode::Reset,
    ;

    /// Wraps the value in gray styling.
    fn gray(self) -> (r: StyledText)
        ensures
            r@.value == self@,
            r@.styles == seq![AnsiCode::Gray],
            r@.reset == AnsiCode::Reset,
    ;
}

impl Colorize for String {
    fn red(self) -> (r: StyledText) {
        StyledText::new(self, AnsiCode::Red)
    }

    fn green(self) -> (r: StyledText) {
        StyledText::new(self, AnsiCode::Green)
    }

    fn yellow(self) -> (r: StyledText) {
        StyledText::new(self, AnsiCode::Yellow)
    }

    fn purple(self) -> (r: StyledText) {
        StyledText::new(self, AnsiCode::Purple)
    }

    fn cyan(self) -> (r: StyledText) {
        StyledText::new(self, AnsiCode::Cyan)
    }

    fn gray(self) -> (r: StyledText) {
        StyledText::new(self, AnsiCode::Gray)
    }
}

impl Colorize for &str {
    fn red(self) -> (r: StyledText) {
        StyledText::new(String::from_str(self), AnsiCode::Red)
    }

    fn green(self) -> (r: StyledText) {
        StyledText::new(String::from_str(self), AnsiCode::Green)
    }

    fn yellow(self) -> (r: StyledText) {
        StyledText::new(String::from_str(self), AnsiCode::Yellow)
    }

    fn purple(self) -> (r: StyledText) {
        StyledText::new(String::from_str(self), AnsiCode::Purple)
    }

    fn cyan(self) -> (r: StyledText) {
        StyledText::new(String::from_str(self), AnsiCode::Cyan)
    }

    fn gray(self) -> (r: StyledText) {
        StyledText::new(String::from_str(self), AnsiCode::Gray)
    }
}

} // verus!
