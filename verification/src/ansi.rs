//! ANSI escape sequence generation and stripping.

pub mod codes;
pub mod cursor;

use vstd::prelude::*;
use crate::chars::{chars_of, push_decimal, spec_decimal, spec_join};
use crate::color::{spec_bg_code, spec_downgrade, spec_fg_code, Color, ColorSystem};
use crate::style::Style;
use crate::width::{display_width, display_width_of};

verus! {

/// The SGR parameter string selecting one color, after downgrading it to
/// the given color system: the plain codes for standard colors, `38;5;N`
/// or `48;5;N` for palette colors, `38;2;R;G;B` or `48;2;R;G;B` for true
/// colors, and `39` or `49` for the terminal default.
pub open spec fn spec_color_param(c: Color, is_background: bool, system: ColorSystem) -> Seq<
    char,
> {
    match spec_downgrade(c, system) {
        Color::Default => if is_background {
            "49"@
        } else {
            "39"@
        },
        Color::Standard(sc) => spec_decimal(
            if is_background {
                spec_bg_code(sc) as int
            } else {
                spec_fg_code(sc) as int
            },
        ),
        Color::EightBit(index) => (if is_background {
            "48;5;"@
        } else {
            "38;5;"@
        }) + spec_decimal(index as int),
        Color::TrueColor { r, g, b } => (if is_background {
            "48;2;"@
        } else {
            "38;2;"@
        }) + spec_decimal(r as int) + ";"@ + spec_decimal(g as int) + ";"@ + spec_decimal(
            b as int,
        ),
    }
}

/// The color parameters of a style: the foreground and the background
/// where they are set.
pub open spec fn spec_color_params(style: Style, system: ColorSystem) -> Seq<Seq<char>> {
    let params = Seq::<Seq<char>>::empty();
    let params = match style.color {
        Some(c) => params.push(spec_color_param(c, false, system)),
        None => params,
    };
    match style.background {
        Some(c) => params.push(spec_color_param(c, true, system)),
        None => params,
    }
}

/// One numeric code per attribute explicitly switched on.
pub open spec fn spec_flag_on_params(style: Style) -> Seq<Seq<char>> {
    let params = Seq::<Seq<char>>::empty();
    let params = if style.bold == Some(true) {
        params.push("1"@)
    } else {
        params
    };
    let params = if style.dim == Some(true) {
        params.push("2"@)
    } else {
        params
    };
    let params = if style.italic == Some(true) {
        params.push("3"@)
    } else {
        params
    };
    let params = if style.underline == Some(true) {
        params.push("4"@)
    } else {
        params
    };
    let params = if style.blink == Some(true) {
        params.push("5"@)
    } else {
        params
    };
    let params = if style.reverse == Some(true) {
        params.push("7"@)
    } else {
        params
    };
    let params = if style.hidden == Some(true) {
        params.push("8"@)
    } else {
        params
    };
    if style.strikethrough == Some(true) {
        params.push("9"@)
    } else {
        params
    }
}

/// One numeric "off" code per attribute explicitly switched off.
pub open spec fn spec_flag_off_params(style: Style) -> Seq<Seq<char>> {
    let params = Seq::<Seq<char>>::empty();
    let params = if style.bold == Some(false) {
        params.push("22"@)
    } else {
        params
    };
    let params = if style.dim == Some(false) {
        params.push("22"@)
    } else {
        params
    };
    let params = if style.italic == Some(false) {
        params.push("23"@)
    } else {
        params
    };
    let params = if style.underline == Some(false) {
        params.push("24"@)
    } else {
        params
    };
    let params = if style.blink == Some(false) {
        params.push("25"@)
    } else {
        params
    };
    let params = if style.reverse == Some(false) {
        params.push("27"@)
    } else {
        params
    };
    let params = if style.hidden == Some(false) {
        params.push("28"@)
    } else {
        params
    };
    if style.strikethrough == Some(false) {
        params.push("29"@)
    } else {
        params
    }
}

/// The ordered SGR parameters of a style: foreground and background
/// colors first, then one code per attribute explicitly on, then one
/// "off" code per attribute explicitly off.
pub open spec fn spec_style_params(style: Style, system: ColorSystem) -> Seq<Seq<char>> {
    spec_color_params(style, system) + spec_flag_on_params(style) + spec_flag_off_params(style)
}

/// The escape sequence assembled from SGR parameters: empty for no
/// parameters, otherwise the parameters joined with `;` between `ESC [`
/// and `m`.
pub open spec fn spec_ansi_string(params: Seq<Seq<char>>) -> Seq<char> {
    if params.len() == 0 {
        Seq::empty()
    } else {
        "\x1b["@ + spec_join(params, ";"@) + "m"@
    }
}

/// The full escape sequence of a style for a terminal of the given color
/// system.
pub open spec fn spec_style_ansi(style: Style, system: ColorSystem) -> Seq<char> {
    spec_ansi_string(spec_style_params(style, system))
}

/// ANSI escape sequence builder for styling text.
pub struct AnsiBuilder {
    /// The SGR parameter strings collected so far.
    pub sequences: Vec<String>,
}

impl AnsiBuilder {
    /// The parameter strings collected so far, as character sequences.
    pub open spec fn params(&self) -> Seq<Seq<char>> {
        self.sequences@.map_values(|p: String| p@)
    }

    /// Create a new ANSI builder.
    pub fn new() -> (r: Self)
        ensures
            r.params() == Seq::<Seq<char>>::empty(),
    {
        let r = Self { sequences: Vec::new() };
        proof {
            assert(r.params() =~= Seq::<Seq<char>>::empty());
        }
        r
    }

    /// Check if the builder is empty.
    pub fn is_empty(&self) -> (r: bool)
        ensures
            r == (self.params().len() == 0),
    {
        self.sequences.len() == 0
    }

    /// Append one parameter string.
    fn push_param(&mut self, param: String)
        ensures
            final(self).params() == old(self).params().push(param@),
    {
        self.sequences.push(param);
        proof {
            assert(self.params() =~= old(self).params().push(param@));
        }
    }

    /// Add a color escape parameter, downgraded to the color system.
    fn add_color(&mut self, color: Color, is_background: bool, color_system: ColorSystem)
        ensures
            final(self).params() == old(self).params().push(
                spec_color_param(color, is_background, color_system),
            ),
    {
        let downgraded = color.downgrade(color_system);
        match downgraded {
            Color::Default => {
                if is_background {
                    self.push_param("49".to_owned());
                } else {
                    self.push_param("39".to_owned());
                }
            },
            Color::Standard(std_color) => {
                let code = if is_background {
                    std_color.ansi_bg_code()
                } else {
                    std_color.ansi_fg_code()
                };
                let mut param = String::new();
                push_decimal(&mut param, code as usize);
                proof {
                    assert(param@ =~= spec_color_param(color, is_background, color_system));
                }
                self.push_param(param);
            },
            Color::EightBit(index) => {
                let mut param = String::new();
                if is_background {
                    param.append("48;5;");
                } else {
                    param.append("38;5;");
                }
                push_decimal(&mut param, index as usize);
                proof {
                    assert(param@ =~= spec_color_param(color, is_background, color_system));
                }
                self.push_param(param);
            },
            Color::TrueColor { r, g, b } => {
                let mut param = String::new();
                if is_background {
                    param.append("48;2;");
                } else {
                    param.append("38;2;");
                }
                push_decimal(&mut param, r as usize);
                param.append(";");
                push_decimal(&mut param, g as usize);
                param.append(";");
                push_decimal(&mut param, b as usize);
                proof {
                    assert(param@ =~= spec_color_param(color, is_background, color_system));
                }
                self.push_param(param);
            },
        }
    }

    /// Add a style to the builder: the appropriate escape parameters for
    /// the style under the given color system capability.
    pub fn add_style(&mut self, style: &Style, color_system: ColorSystem)
        ensures
            final(self).params() == old(self).params() + spec_style_params(*style, color_system),
    {
        let ghost mut expect = Seq::<Seq<char>>::empty();
        if let Some(color) = style.color {
            self.add_color(color, false, color_system);
            proof {
                expect = expect.push(spec_color_param(color, false, color_system));
            }
        }
        if let Some(color) = style.background {
            self.add_color(color, true, color_system);
            proof {
                expect = expect.push(spec_color_param(color, true, color_system));
            }
        }
        proof {
            assert(expect =~= spec_color_params(*style, color_system));
            assert(self.params() =~= old(self).params() + expect);
        }
        self.add_on_flags(style);
        self.add_off_flags(style);
        proof {
            assert(self.params() =~= old(self).params() + spec_style_params(
                *style,
                color_system,
            ));
        }
    }

    /// Append the code of every attribute the style switches on.
    #[verifier::rlimit(100)]
    fn add_on_flags(&mut self, style: &Style)
        ensures
            final(self).params() == old(self).params() + spec_flag_on_params(*style),
    {
        let ghost mut expect = Seq::<Seq<char>>::empty();
        if let Some(true) = style.bold {
            self.push_param("1".to_owned());
            proof {
                expect = expect.push("1"@);
                assert(self.params() =~= old(self).params() + expect);
            }
        }
        if let Some(true) = style.dim {
            self.push_param("2".to_owned());
            proof {
                expect = expect.push("2"@);
                assert(self.params() =~= old(self).params() + expect);
            }
        }
        if let Some(true) = style.italic {
            self.push_param("3".to_owned());
            proof {
                expect = expect.push("3"@);
                assert(self.params() =~= old(self).params() + expect);
            }
        }
        if let Some(true) = style.underline {
            self.push_param("4".to_owned());
            proof {
                expect = expect.push("4"@);
                assert(self.params() =~= old(self).params() + expect);
            }
        }
        if let Some(true) = style.blink {
            self.push_param("5".to_owned());
            proof {
                expect = expect.push("5"@);
                assert(self.params() =~= old(self).params() + expect);
            }
        }
        if let Some(true) = style.reverse {
            self.push_param("7".to_owned());
            proof {
                expect = expect.push("7"@);
                assert(self.params() =~= old(self).params() + expect);
            }
        }
        if let Some(true) = style.hidden {
            self.push_param("8".to_owned());
            proof {
                expect = expect.push("8"@);
                assert(self.params() =~= old(self).params() + expect);
            }
        }
        if let Some(true) = style.strikethrough {
            self.push_param("9".to_owned());
            proof {
                expect = expect.push("9"@);
                assert(self.params() =~= old(self).params() + expect);
            }
        }
        proof {
            assert(expect =~= spec_flag_on_params(*style));
            assert(self.params() =~= old(self).params() + expect);
        }
    }

    /// Append the "off" code of every attribute the style switches off.
    #[verifier::rlimit(100)]
    fn add_off_flags(&mut self, style: &Style)
        ensures
            final(self).params() == old(self).params() + spec_flag_off_params(*style),
    {
        let ghost mut expect = Seq::<Seq<char>>::empty();
        if let Some(false) = style.bold {
            self.push_param("22".to_owned());
            proof {
                expect = expect.push("22"@);
                assert(self.params() =~= old(self).params() + expect);
            }
        }
        if let Some(false) = style.dim {
            self.push_param("22".to_owned());
            proof {
                expect = expect.push("22"@);
                assert(self.params() =~= old(self).params() + expect);
            }
        }
        if let Some(false) = style.italic {
            self.push_param("23".to_owned());
            proof {
                expect = expect.push("23"@);
                assert(self.params() =~= old(self).params() + expect);
            }
        }
        if let Some(false) = style.underline {
            self.push_param("24".to_owned());
            proof {
                expect = expect.push("24"@);
                assert(self.params() =~= old(self).params() + expect);
            }
        }
        if let Some(false) = style.blink {
            self.push_param("25".to_owned());
            proof {
                expect = expect.push("25"@);
                assert(self.params() =~= old(self).params() + expect);
            }
        }
        if let Some(false) = style.reverse {
            self.push_param("27".to_owned());
            proof {
                expect = expect.push("27"@);
                assert(self.params() =~= old(self).params() + expect);
            }
        }
        if let Some(false) = style.hidden {
            self.push_param("28".to_owned());
            proof {
                expect = expect.push("28"@);
                assert(self.params() =~= old(self).params() + expect);
            }
        }
        if let Some(false) = style.strikethrough {
            self.push_param("29".to_owned());
            proof {
                expect = expect.push("29"@);
                assert(self.params() =~= old(self).params() + expect);
            }
        }
        proof {
            assert(expect =~= spec_flag_off_params(*style));
            assert(self.params() =~= old(self).params() + expect);
        }
    }

    /// Build the final ANSI escape sequence; empty if no parameters were
    /// added.
    pub fn build(self) -> (r: String)
        ensures
            r@ == spec_ansi_string(self.params()),
    {
        if self.sequences.len() == 0 {
            let r = String::new();
            proof {
                assert(r@ =~= spec_ansi_string(self.params()));
            }
            r
        } else {
            let mut out = String::new();
            out.append("\x1b[");
            crate::chars::join_into(&mut out, &self.sequences, ";");
            out.append("m");
            proof {
                assert(out@ =~= spec_ansi_string(self.params()));
            }
            out
        }
    }
}

impl Default for AnsiBuilder {
    /// An empty builder.
    fn default() -> (r: Self)
        ensures
            r.params() == Seq::<Seq<char>>::empty(),
    {
        Self::new()
    }
}

/// Generate the ANSI escape sequence for a style, given the terminal's
/// color system.
pub fn style_to_ansi(style: &Style, color_system: ColorSystem) -> (r: String)
    ensures
        r@ == spec_style_ansi(*style, color_system),
{
    let mut builder = AnsiBuilder::new();
    builder.add_style(style, color_system);
    proof {
        assert(builder.params() =~= spec_style_params(*style, color_system));
    }
    builder.build()
}

/// Reset all ANSI formatting.
pub const RESET: &'static str = "\x1b[0m";

/// An ASCII letter, which terminates a control sequence.
pub open spec fn spec_is_ansi_term(c: char) -> bool {
    ('a' <= c && c <= 'z') || ('A' <= c && c <= 'Z')
}

fn is_ansi_term(c: char) -> (r: bool)
    ensures
        r == spec_is_ansi_term(c),
{
    ('a' <= c && c <= 'z') || ('A' <= c && c <= 'Z')
}

/// The length of the leading run of characters that neither terminate a
/// control sequence nor begin a new escape.
pub open spec fn spec_csi_run(s: Seq<char>) -> int
    decreases s.len(),
{
    if s.len() == 0 || spec_is_ansi_term(s[0]) || s[0] == '\x1b' {
        0
    } else {
        1 + spec_csi_run(s.drop_first())
    }
}

pub proof fn lemma_csi_run_bounds(s: Seq<char>)
    ensures
        0 <= spec_csi_run(s) <= s.len(),
    decreases s.len(),
{
    if s.len() > 0 && !spec_is_ansi_term(s[0]) && s[0] != '\x1b' {
        lemma_csi_run_bounds(s.drop_first());
    }
}

/// Where the first `k` characters neither terminate nor restart and the
/// character at `k` (if any) does, the run has length exactly `k`.
pub proof fn lemma_csi_run_is(s: Seq<char>, k: int)
    requires
        0 <= k <= s.len(),
        forall|j: int| 0 <= j < k ==> !spec_is_ansi_term(s[j]) && s[j] != '\x1b',
        k == s.len() || spec_is_ansi_term(s[k]) || s[k] == '\x1b',
    ensures
        spec_csi_run(s) == k,
    decreases k,
{
    if k > 0 {
        lemma_csi_run_is(s.drop_first(), k - 1);
    }
}

/// The text left after removing every ANSI control sequence: `ESC [`
/// opens a sequence that runs to its first ASCII alphabetic terminator;
/// an escape met inside a sequence abandons it and is reconsidered as the
/// start of a new one; a truncated sequence is discarded; any other
/// character, an escape not followed by `[` included, is kept.
pub open spec fn spec_strip_ansi(s: Seq<char>) -> Seq<char>
    decreases s.len(),
    via spec_strip_ansi_dec
{
    if s.len() == 0 {
        Seq::empty()
    } else if s[0] == '\x1b' && s.len() >= 2 && s[1] == '[' {
        let t = s.skip(2);
        let k = spec_csi_run(t);
        if k == t.len() {
            Seq::empty()
        } else if spec_is_ansi_term(t[k]) {
            spec_strip_ansi(t.skip(k + 1))
        } else {
            spec_strip_ansi(t.skip(k))
        }
    } else {
        seq![s[0]] + spec_strip_ansi(s.drop_first())
    }
}

#[via_fn]
proof fn spec_strip_ansi_dec(s: Seq<char>) {
    if s.len() >= 2 && s[0] == '\x1b' && s[1] == '[' {
        lemma_csi_run_bounds(s.skip(2));
    }
}

/// Strip ANSI escape sequences from a string, leaving only the plain text
/// content.
pub fn strip_ansi(text: &str) -> (r: String)
    ensures
        r@ == spec_strip_ansi(text@),
{
    let v = chars_of(text);
    let n = v.len();
    let mut out = String::new();
    let mut i: usize = 0;
    proof {
        assert(v@.skip(0) =~= v@);
        assert(out@ + spec_strip_ansi(v@) =~= spec_strip_ansi(v@));
    }
    while i < n
        invariant
            i <= n,
            n == v@.len(),
            v@ == text@,
            out@ + spec_strip_ansi(v@.skip(i as int)) == spec_strip_ansi(v@),
        decreases n - i,
    {
        let ghost rest = v@.skip(i as int);
        let c = v[i];
        if c == '\x1b' && i + 1 < n && v[i + 1] == '[' {
            proof {
                assert(rest[0] == '\x1b' && rest.len() >= 2 && rest[1] == '[');
            }
            let mut j = i + 2;
            while j < n && !is_ansi_term(v[j]) && v[j] != '\x1b'
                invariant
                    i + 2 <= j <= n,
                    n == v@.len(),
                    forall|m: int| i + 2 <= m < j ==> !spec_is_ansi_term(v@[m]) && v@[m] != '\x1b',
                decreases n - j,
            {
                j = j + 1;
            }
            let ghost t = rest.skip(2);
            let ghost k = j - (i + 2);
            proof {
                assert(t =~= v@.skip(i as int + 2));
                assert(forall|m: int|
                    0 <= m < k ==> t[m] == v@[i as int + 2 + m] && !spec_is_ansi_term(t[m]) && t[m]
                        != '\x1b');
                if j < n {
                    assert(t[k] == v@[j as int]);
                }
                lemma_csi_run_is(t, k);
            }
            if j < n {
                if is_ansi_term(v[j]) {
                    proof {
                        assert(spec_strip_ansi(rest) == spec_strip_ansi(t.skip(k + 1)));
                        assert(t.skip(k + 1) =~= v@.skip(j as int + 1));
                    }
                    i = j + 1;
                } else {
                    proof {
                        assert(spec_strip_ansi(rest) == spec_strip_ansi(t.skip(k)));
                        assert(t.skip(k) =~= v@.skip(j as int));
                    }
                    i = j;
                }
            } else {
                proof {
                    assert(spec_strip_ansi(rest) =~= Seq::<char>::empty());
                    assert(v@.skip(n as int) =~= Seq::<char>::empty());
                    assert(spec_strip_ansi(v@.skip(n as int)) =~= Seq::<char>::empty());
                    assert(out@ + spec_strip_ansi(v@.skip(n as int)) =~= out@ + spec_strip_ansi(
                        rest,
                    ));
                }
                i = n;
            }
        } else {
            out.push(c);
            i = i + 1;
            proof {
                assert(rest.drop_first() =~= v@.skip(i as int));
                assert(out@ + spec_strip_ansi(v@.skip(i as int)) =~= spec_strip_ansi(v@));
            }
        }
    }
    proof {
        assert(v@.skip(n as int) =~= Seq::<char>::empty());
        assert(out@ =~= out@ + spec_strip_ansi(v@.skip(n as int)));
    }
    out
}

/// Calculate the display width of text, ignoring ANSI escape sequences.
pub fn text_width(text: &str) -> (w: usize)
    ensures
        w as nat == display_width_of(spec_strip_ansi(text@)),
{
    let stripped = strip_ansi(text);
    display_width(stripped.as_str())
}

/// An escape character directly followed by `[` occurs somewhere: the
/// start of a control sequence.
pub open spec fn spec_has_csi(s: Seq<char>) -> bool {
    exists|i: int| 0 <= i && i + 1 < s.len() && s[i] == '\x1b' && #[trigger] s[i + 1] == '['
}

/// A string in which no escape starts a control sequence strips to
/// itself.
pub proof fn lemma_strip_ansi_fixed(s: Seq<char>)
    requires
        !spec_has_csi(s),
    ensures
        spec_strip_ansi(s) == s,
    decreases s.len(),
{
    if s.len() == 0 {
        assert(spec_strip_ansi(s) =~= s);
    } else {
        if s[0] == '\x1b' && s.len() >= 2 && s[1] == '[' {
            assert(s[0int + 1] == '[');
            assert(spec_has_csi(s));
        }
        assert(!spec_has_csi(s.drop_first())) by {
            if spec_has_csi(s.drop_first()) {
                let w = choose|w: int|
                    0 <= w && w + 1 < s.drop_first().len() && s.drop_first()[w] == '\x1b'
                        && #[trigger] s.drop_first()[w + 1] == '[';
                assert(s[w + 1] == '\x1b' && s[w + 2] == '[');
                assert(spec_has_csi(s));
            }
        }
        lemma_strip_ansi_fixed(s.drop_first());
        assert(seq![s[0]] + s.drop_first() =~= s);
    }
}

/// Stripping is idempotent on every input whose stripped form holds no
/// control-sequence opener: stripping a second time changes nothing.
pub proof fn lemma_strip_ansi_idempotent(s: Seq<char>)
    requires
        !spec_has_csi(spec_strip_ansi(s)),
    ensures
        spec_strip_ansi(spec_strip_ansi(s)) == spec_strip_ansi(s),
{
    lemma_strip_ansi_fixed(spec_strip_ansi(s));
}

/// Text without escape characters keeps its plain display width under
/// ANSI-aware measurement: stripping such text changes nothing.
pub proof fn lemma_text_width_plain(s: Seq<char>)
    requires
        forall|i: int| 0 <= i < s.len() ==> s[i] != '\x1b',
    ensures
        display_width_of(spec_strip_ansi(s)) == display_width_of(s),
{
    assert(!spec_has_csi(s)) by {
        if spec_has_csi(s) {
            let w = choose|w: int|
                0 <= w && w + 1 < s.len() && s[w] == '\x1b' && #[trigger] s[w + 1] == '[';
            assert(s[w] != '\x1b');
        }
    }
    lemma_strip_ansi_fixed(s);
}

} // verus!
