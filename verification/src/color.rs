//! Level names paired with a display color. A colored form is the name
//! wrapped in ANSI style sequences; the exact sequences come from the
//! terminal crate and depend on whether the process has colors enabled.

use vstd::prelude::*;
use crossterm::style::Stylize;

verus! {

/// One ANSI style control sequence (`ESC [`, parameter characters, `m`),
/// or nothing at all.
pub open spec fn is_ansi_style_seq(s: Seq<char>) -> bool {
    ||| s.len() == 0
    ||| {
        &&& s.len() >= 3
        &&& s[0] == '\u{1b}'
        &&& s[1] == '['
        &&& s[s.len() - 1] == 'm'
        &&& forall|i: int| 2 <= i < s.len() - 1 ==> ('0' <= #[trigger] s[i] <= '9' || s[i] == ';')
    }
}

/// `r` is `inner` with an ANSI style sequence (possibly empty) on each side.
pub open spec fn wraps_styled(r: Seq<char>, inner: Seq<char>) -> bool {
    exists|a: int, b: int|
        {
            &&& 0 <= a <= b <= r.len()
            &&& #[trigger] r.subrange(a, b) == inner
            &&& is_ansi_style_seq(r.subrange(0, a))
            &&& is_ansi_style_seq(r.subrange(b, r.len() as int))
        }
}

/// The sequence that turns a foreground color on: `ESC [` code `m`.
pub open spec fn ansi_fg_start(code: Seq<char>) -> Seq<char> {
    seq!['\u{1b}', '['] + code + seq!['m']
}

/// The sequence that resets the foreground color.
pub open spec fn ansi_fg_reset() -> Seq<char> {
    seq!['\u{1b}', '[', '3', '9', 'm']
}

/// The empty style sequence written when ANSI colors are disabled.
pub open spec fn ansi_disabled_seq() -> Seq<char> {
    seq!['\u{1b}', '[', 'm']
}

/// What coloring `inner` with the foreground color of parameter string
/// `code` produces: the colored form when the process has ANSI colors
/// enabled, the empty-parameter form when it has them disabled.
pub open spec fn styled_with_code(r: Seq<char>, inner: Seq<char>, code: Seq<char>) -> bool {
    ||| r == ansi_fg_start(code) + inner + ansi_fg_reset()
    ||| r == ansi_disabled_seq() + inner + ansi_disabled_seq()
}

/// Either outcome of coloring is the content wrapped in style sequences.
pub proof fn lemma_styled_code_wraps(r: Seq<char>, inner: Seq<char>, code: Seq<char>)
    requires
        styled_with_code(r, inner, code),
        forall|i: int| 0 <= i < code.len() ==> ('0' <= #[trigger] code[i] <= '9' || code[i] == ';'),
    ensures
        wraps_styled(r, inner),
{
    if r == ansi_fg_start(code) + inner + ansi_fg_reset() {
        let pre = ansi_fg_start(code);
        let post = ansi_fg_reset();
        let a = pre.len() as int;
        let b = a + inner.len() as int;
        assert(r.subrange(a, b) =~= inner);
        assert(r.subrange(0, a) =~= pre);
        assert(r.subrange(b, r.len() as int) =~= post);
        assert(is_ansi_style_seq(pre)) by {
            assert(pre[0] == '\u{1b}');
            assert(pre[1] == '[');
            assert(pre[pre.len() - 1] == 'm');
            assert forall|i: int| 2 <= i < pre.len() - 1 implies ('0' <= #[trigger] pre[i] <= '9'
                || pre[i] == ';') by {
                assert(pre[i] == code[i - 2]);
            }
        }
        assert(is_ansi_style_seq(post)) by {
            assert(post[0] == '\u{1b}');
            assert(post[1] == '[');
            assert(post[post.len() - 1] == 'm');
            assert(post[2] == '3' && post[3] == '9');
        }
    } else {
        let pre = ansi_disabled_seq();
        let a = pre.len() as int;
        let b = a + inner.len() as int;
        assert(r.subrange(a, b) =~= inner);
        assert(r.subrange(0, a) =~= pre);
        assert(r.subrange(b, r.len() as int) =~= pre);
        assert(is_ansi_style_seq(pre)) by {
            assert(pre[0] == '\u{1b}');
            assert(pre[1] == '[');
            assert(pre[pre.len() - 1] == 'm');
        }
    }
}

/// ANSI color parameter string for each of the named colors.
pub open spec fn red_code() -> Seq<char> {
    seq!['3', '8', ';', '5', ';', '9']
}

pub open spec fn green_code() -> Seq<char> {
    seq!['3', '8', ';', '5', ';', '1', '0']
}

pub open spec fn yellow_code() -> Seq<char> {
    seq!['3', '8', ';', '5', ';', '1', '1']
}

pub open spec fn blue_code() -> Seq<char> {
    seq!['3', '8', ';', '5', ';', '1', '2']
}

pub open spec fn magenta_code() -> Seq<char> {
    seq!['3', '8', ';', '5', ';', '1', '3']
}

pub open spec fn cyan_code() -> Seq<char> {
    seq!['3', '8', ';', '5', ';', '1', '4']
}

/// Relies on crossterm's `style`, `Stylize::with(Color::Red)` and the
/// `Display` of `StyledContent`: a named foreground color renders as
/// `ESC[38;5;{n}m` before the content and `ESC[39m` after it (n = 9 for
/// red), or as `ESC[m` on both sides when the process has ANSI colors
/// disabled.
#[verifier::external_body]
fn styled_red(s: &str) -> (r: String)
    ensures
        styled_with_code(r@, s@, red_code()),
{
    format!("{}", crossterm::style::style(s).with(crossterm::style::Color::Red))
}

/// Relies on crossterm as `styled_red` does, with n = 10 for green.
#[verifier::external_body]
fn styled_green(s: &str) -> (r: String)
    ensures
        styled_with_code(r@, s@, green_code()),
{
    format!("{}", crossterm::style::style(s).with(crossterm::style::Color::Green))
}

/// Relies on crossterm as `styled_red` does, with n = 11 for yellow.
#[verifier::external_body]
fn styled_yellow(s: &str) -> (r: String)
    ensures
        styled_with_code(r@, s@, yellow_code()),
{
    format!("{}", crossterm::style::style(s).with(crossterm::style::Color::Yellow))
}

/// Relies on crossterm as `styled_red` does, with n = 12 for blue.
#[verifier::external_body]
fn styled_blue(s: &str) -> (r: String)
    ensures
        styled_with_code(r@, s@, blue_code()),
{
    format!("{}", crossterm::style::style(s).with(crossterm::style::Color::Blue))
}

/// Relies on crossterm as `styled_red` does, with n = 13 for magenta.
#[verifier::external_body]
fn styled_magenta(s: &str) -> (r: String)
    ensures
        styled_with_code(r@, s@, magenta_code()),
{
    format!("{}", crossterm::style::style(s).with(crossterm::style::Color::Magenta))
}

/// Relies on crossterm as `styled_red` does, with n = 14 for cyan.
#[verifier::external_body]
fn styled_cyan(s: &str) -> (r: String)
    ensures
        styled_with_code(r@, s@, cyan_code()),
{
    format!("{}", crossterm::style::style(s).with(crossterm::style::Color::Cyan))
}

/// The capability of rendering as a (possibly colored) level name.
pub trait GetColor: Sized {
    /// The plain level name.
    spec fn inner_view(&self) -> Seq<char>;

    /// The display form: the name, wrapped in ANSI style sequences when a
    /// color is attached.
    fn get_colored_str(&self) -> (r: String)
        ensures
            wraps_styled(r@, self.inner_view()),
    ;

    /// The plain name itself.
    fn get_inner_str(&self) -> (r: String)
        ensures
            r@ == self.inner_view(),
    ;
}

/// A level name with the color it displays in.
#[derive(Clone)]
pub enum Color {
    Red(String),
    Green(String),
    Blue(String),
    Cyan(String),
    Yellow(String),
    Magenta(String),
}

impl Color {
    /// The level name inside, whatever the color.
    pub open spec fn spec_inner(&self) -> Seq<char> {
        match self {
            Color::Red(s) => s@,
            Color::Green(s) => s@,
            Color::Blue(s) => s@,
            Color::Cyan(s) => s@,
            Color::Yellow(s) => s@,
            Color::Magenta(s) => s@,
        }
    }
}

impl GetColor for Color {
    open spec fn inner_view(&self) -> Seq<char> {
        self.spec_inner()
    }

    fn get_colored_str(&self) -> (r: String)
        ensures
            wraps_styled(r@, self.inner_view()),
    {
        let r = match self {
            Color::Red(s) => styled_red(s.as_str()),
            Color::Green(s) => styled_green(s.as_str()),
            Color::Blue(s) => styled_blue(s.as_str()),
            Color::Cyan(s) => styled_cyan(s.as_str()),
            Color::Yellow(s) => styled_yellow(s.as_str()),
            Color::Magenta(s) => styled_magenta(s.as_str()),
        };
        proof {
            match self {
                Color::Red(s) => lemma_styled_code_wraps(r@, s@, red_code()),
                Color::Green(s) => lemma_styled_code_wraps(r@, s@, green_code()),
                Color::Blue(s) => lemma_styled_code_wraps(r@, s@, blue_code()),
                Color::Cyan(s) => lemma_styled_code_wraps(r@, s@, cyan_code()),
                Color::Yellow(s) => lemma_styled_code_wraps(r@, s@, yellow_code()),
                Color::Magenta(s) => lemma_styled_code_wraps(r@, s@, magenta_code()),
            }
        }
        r
    }

    fn get_inner_str(&self) -> (r: String)
        ensures
            r@ == self.inner_view(),
    {
        match self {
            Color::Red(s) => s.clone(),
            Color::Green(s) => s.clone(),
            Color::Blue(s) => s.clone(),
            Color::Cyan(s) => s.clone(),
            Color::Yellow(s) => s.clone(),
            Color::Magenta(s) => s.clone(),
        }
    }
}

/// A bare string renders as itself: plain styling adds no sequences.
impl GetColor for String {
    open spec fn inner_view(&self) -> Seq<char> {
        self@
    }

    fn get_colored_str(&self) -> (r: String)
        ensures
            wraps_styled(r@, self.inner_view()),
    {
        let r = self.clone();
        proof {
            assert(r@.subrange(0, 0) =~= Seq::<char>::empty());
            assert(r@.subrange(0, r@.len() as int) =~= r@);
            assert(r@.subrange(r@.len() as int, r@.len() as int) =~= Seq::<char>::empty());
        }
        r
    }

    fn get_inner_str(&self) -> (r: String)
        ensures
            r@ == self.inner_view(),
    {
        self.clone()
    }
}

} // verus!
