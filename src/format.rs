//! The template language: a flat scan over literal characters and
//! two-character directives, evaluated against one color.

use vstd::prelude::*;
use vstd::std_specs::iter::IteratorSpec;
use vstd::string::StringExecFns;

use crate::color::Color;
use crate::style::{bold, bold_text, paint_rgb, rgb_text};
use crate::text::{
    decimal, hundredths, pad_left, pad_right, push_char, push_decimal, push_hundredths,
    push_padded_left, push_padded_right,
};

verus! {

/// Why a template could not be evaluated.
#[derive(Clone, Copy, Debug, PartialEq, Eq, Structural)]
pub enum FormatError {
    /// The template ends right after a `%` or a `\`.
    UnterminatedDirective,
    /// The character after `%` names no color directive.
    UnknownColorDirective(char),
    /// The character after `\` names no escape directive.
    UnknownEscapeDirective(char),
}

/// Width to which a color name is padded.
pub const NAME_WIDTH: usize = 14;

/// Width to which each number of `%r` and `%h` is padded.
pub const NUMBER_WIDTH: usize = 3;

/// Whether `ch` starts a directive.
pub open spec fn is_marker(ch: char) -> bool {
    ch == '%' || ch == '\\'
}

/// The block of `%b`: fourteen full-block characters.
pub open spec fn swatch_block() -> Seq<char> {
    Seq::new(14, |i: int| '\u{2588}')
}

/// `rgb(R, G, B)`, each component padded to width 3.
pub open spec fn rgb_triple(c: Color) -> Seq<char> {
    seq!['r', 'g', 'b', '('] + pad_left(decimal(c.red as nat), 3) + seq![',', ' '] + pad_left(
        decimal(c.green as nat),
        3,
    ) + seq![',', ' '] + pad_left(decimal(c.blue as nat), 3) + seq![')']
}

/// `hsl(H, S%, L%)`, each value padded to width 3.
pub open spec fn hsl_triple(c: Color) -> Seq<char> {
    seq!['h', 's', 'l', '('] + pad_left(decimal(c.hue as nat), 3) + seq![',', ' '] + pad_left(
        hundredths(c.saturation as nat),
        3,
    ) + seq!['%', ',', ' '] + pad_left(hundredths(c.lightness as nat), 3) + seq!['%', ')']
}

/// What the color directive `%d` writes for `c`, or `None` when `d` names none.
pub open spec fn color_directive(d: char, c: Color) -> Option<Seq<char>> {
    if d == '%' {
        Some(seq!['%'])
    } else if d == 'n' {
        Some(pad_right(c.name@, 14))
    } else if d == 'b' {
        Some(rgb_text(c.red, c.green, c.blue, swatch_block()))
    } else if d == 'x' {
        Some(bold_text(c.hex@))
    } else if d == 'r' {
        Some(bold_text(rgb_triple(c)))
    } else if d == 'h' {
        Some(bold_text(hsl_triple(c)))
    } else {
        None
    }
}

/// The character that the escape directive `\d` writes, or `None` when `d`
/// names none.
pub open spec fn escape_directive(d: char) -> Option<char> {
    if d == 'n' {
        Some('\n')
    } else if d == 't' {
        Some('\t')
    } else if d == 'r' {
        Some('\r')
    } else if d == '\\' {
        Some('\\')
    } else {
        None
    }
}

/// The output of template `t` for color `c`, and how evaluation ended.
/// On an error, the output is what was written before the failing directive.
pub open spec fn paint_spec(t: Seq<char>, c: Color) -> (Seq<char>, Result<(), FormatError>)
    decreases t.len(),
{
    if t.len() == 0 {
        (Seq::empty(), Ok(()))
    } else if !is_marker(t[0]) {
        let rest = paint_spec(t.drop_first(), c);
        (seq![t[0]] + rest.0, rest.1)
    } else if t.len() < 2 {
        (Seq::empty(), Err(FormatError::UnterminatedDirective))
    } else {
        let piece = if t[0] == '%' {
            color_directive(t[1], c)
        } else {
            match escape_directive(t[1]) {
                Some(ch) => Some(seq![ch]),
                None => None,
            }
        };
        match piece {
            Some(p) => {
                let rest = paint_spec(t.subrange(2, t.len() as int), c);
                (p + rest.0, rest.1)
            },
            None => (
                Seq::empty(),
                Err(
                    if t[0] == '%' {
                        FormatError::UnknownColorDirective(t[1])
                    } else {
                        FormatError::UnknownEscapeDirective(t[1])
                    },
                ),
            ),
        }
    }
}

/// Appends `rgb(R, G, B)` for `c` to `out`.
fn push_rgb_triple(out: &mut String, c: &Color)
    ensures
        final(out)@ == old(out)@ + rgb_triple(*c),
{
    let mut n = String::new();
    push_decimal(&mut n, c.red as u32);
    out.append("rgb(");
    push_padded_left(out, n.as_str(), NUMBER_WIDTH);
    let mut n = String::new();
    push_decimal(&mut n, c.green as u32);
    out.append(", ");
    push_padded_left(out, n.as_str(), NUMBER_WIDTH);
    let mut n = String::new();
    push_decimal(&mut n, c.blue as u32);
    out.append(", ");
    push_padded_left(out, n.as_str(), NUMBER_WIDTH);
    out.append(")");
    proof {
        reveal_strlit("rgb(");
        reveal_strlit(", ");
        reveal_strlit(")");
    }
    assert(final(out)@ =~= old(out)@ + rgb_triple(*c));
}

/// Appends `hsl(H, S%, L%)` for `c` to `out`.
fn push_hsl_triple(out: &mut String, c: &Color)
    ensures
        final(out)@ == old(out)@ + hsl_triple(*c),
{
    let mut n = String::new();
    push_decimal(&mut n, c.hue);
    out.append("hsl(");
    push_padded_left(out, n.as_str(), NUMBER_WIDTH);
    let mut n = String::new();
    push_hundredths(&mut n, c.saturation);
    out.append(", ");
    push_padded_left(out, n.as_str(), NUMBER_WIDTH);
    let mut n = String::new();
    push_hundredths(&mut n, c.lightness);
    out.append("%, ");
    push_padded_left(out, n.as_str(), NUMBER_WIDTH);
    out.append("%)");
    proof {
        reveal_strlit("hsl(");
        reveal_strlit(", ");
        reveal_strlit("%, ");
        reveal_strlit("%)");
    }
    assert(final(out)@ =~= old(out)@ + hsl_triple(*c));
}

/// Appends what the color directive `%d` writes for `c` to `out`, or fails
/// when `d` names no color directive, leaving `out` as it was.
pub fn push_color_directive(out: &mut String, d: char, c: &Color) -> (r: Result<(), FormatError>)
    ensures
        match color_directive(d, *c) {
            Some(p) => r is Ok && final(out)@ == old(out)@ + p,
            None => r == Err::<(), FormatError>(FormatError::UnknownColorDirective(d))
                && final(out)@ == old(out)@,
        },
{
    match d {
        '%' => {
            push_char(out, '%');
            assert(out@ =~= old(out)@ + seq!['%']);
        },
        'n' => {
            push_padded_right(out, c.name.as_str(), NAME_WIDTH);
        },
        'b' => {
            let s = paint_rgb(c.red, c.green, c.blue, "██████████████");
            out.append(s.as_str());
            proof {
                reveal_strlit("██████████████");
            }
            assert("██████████████"@ =~= swatch_block());
        },
        'x' => {
            let s = bold(c.hex.as_str());
            out.append(s.as_str());
        },
        'r' => {
            let mut t = String::new();
            push_rgb_triple(&mut t, c);
            assert(t@ =~= rgb_triple(*c));
            let s = bold(t.as_str());
            out.append(s.as_str());
        },
        'h' => {
            let mut t = String::new();
            push_hsl_triple(&mut t, c);
            assert(t@ =~= hsl_triple(*c));
            let s = bold(t.as_str());
            out.append(s.as_str());
        },
        _ => {
            return Err(FormatError::UnknownColorDirective(d));
        },
    }
    Ok(())
}

/// The control character that the escape directive `\d` stands for.
pub fn escape_char(d: char) -> (r: Result<char, FormatError>)
    ensures
        match escape_directive(d) {
            Some(ch) => r == Ok::<char, FormatError>(ch),
            None => r == Err::<char, FormatError>(FormatError::UnknownEscapeDirective(d)),
        },
{
    match d {
        'n' => Ok('\n'),
        't' => Ok('\t'),
        'r' => Ok('\r'),
        '\\' => Ok('\\'),
        _ => Err(FormatError::UnknownEscapeDirective(d)),
    }
}

/// A template without `%` or `\` is its own output, for every color.
pub proof fn lemma_plain_text_verbatim(t: Seq<char>, c: Color)
    requires
        forall|i: int| 0 <= i < t.len() ==> !is_marker(#[trigger] t[i]),
    ensures
        paint_spec(t, c) == (t, Ok::<(), FormatError>(())),
    decreases t.len(),
{
    if t.len() > 0 {
        let rest = t.drop_first();
        assert forall|i: int| 0 <= i < rest.len() implies !is_marker(#[trigger] rest[i]) by {
            assert(rest[i] == t[i + 1]);
        }
        assert(!is_marker(t[0]));
        lemma_plain_text_verbatim(rest, c);
        assert(seq![t[0]] + rest =~= t);
    }
}

/// `%%` writes a single `%`, whatever the color, and evaluation goes on after it.
pub proof fn lemma_percent_escape(t: Seq<char>, c: Color)
    ensures
        paint_spec(seq!['%', '%'] + t, c) == (seq!['%'] + paint_spec(t, c).0, paint_spec(t, c).1),
{
    let s = seq!['%', '%'] + t;
    assert(s.subrange(2, s.len() as int) =~= t);
}

/// Evaluating a template in two parts: when the first part succeeds, the
/// output of the whole is the first part's output followed by the second's,
/// and the whole ends as the second part does.
pub proof fn lemma_paint_append(u: Seq<char>, v: Seq<char>, c: Color)
    requires
        paint_spec(u, c).1 is Ok,
    ensures
        paint_spec(u + v, c) == (paint_spec(u, c).0 + paint_spec(v, c).0, paint_spec(v, c).1),
    decreases u.len(),
{
    if u.len() == 0 {
        assert(u + v =~= v);
    } else if !is_marker(u[0]) {
        lemma_paint_append(u.drop_first(), v, c);
        assert((u + v).drop_first() =~= u.drop_first() + v);
    } else {
        let tail = u.subrange(2, u.len() as int);
        lemma_paint_append(tail, v, c);
        assert((u + v).subrange(2, (u + v).len() as int) =~= tail + v);
    }
}

/// Whether evaluation succeeds, and with which error it fails, depends on the
/// template alone, never on the color.
pub proof fn lemma_outcome_independent_of_color(t: Seq<char>, c: Color, d: Color)
    ensures
        paint_spec(t, c).1 == paint_spec(t, d).1,
    decreases t.len(),
{
    if t.len() > 0 {
        if !is_marker(t[0]) {
            lemma_outcome_independent_of_color(t.drop_first(), c, d);
        } else if t.len() >= 2 {
            lemma_outcome_independent_of_color(t.subrange(2, t.len() as int), c, d);
        }
    }
}

/// A template whose last character is a `%` or `\` that starts a directive
/// (everything before it evaluates without error) fails as unterminated, for
/// every color.
pub proof fn lemma_trailing_marker_unterminated(u: Seq<char>, c: Color, marker: char)
    requires
        is_marker(marker),
        paint_spec(u, c).1 is Ok,
    ensures
        paint_spec(u.push(marker), c).1 == Err::<(), FormatError>(
            FormatError::UnterminatedDirective,
        ),
{
    lemma_paint_append(u, seq![marker], c);
    assert(u + seq![marker] =~= u.push(marker));
}

/// The characters that may follow `%`.
pub open spec fn color_directive_chars() -> Seq<char> {
    seq!['%', 'n', 'b', 'r', 'h', 'x']
}

/// The characters that may follow `\`.
pub open spec fn escape_directive_chars() -> Seq<char> {
    seq!['n', 't', 'r', '\\']
}

/// The text that reports `e`, naming the characters that were expected.
pub open spec fn error_message(e: FormatError) -> Seq<char> {
    match e {
        FormatError::UnterminatedDirective => "format string expected a directive character after % or \\"@,
        FormatError::UnknownColorDirective(d) => "unknown format specifier "@ + seq![d]
            + ". Must be one of '%nbrhx'"@,
        FormatError::UnknownEscapeDirective(d) => "unknown modifier "@ + seq![d]
            + ". Must be one of 'ntr\\'"@,
    }
}

impl FormatError {
    /// A readable description of the error.
    pub fn message(&self) -> (r: String)
        ensures
            r@ == error_message(*self),
    {
        match *self {
            FormatError::UnterminatedDirective => String::from_str(
                "format string expected a directive character after % or \\",
            ),
            FormatError::UnknownColorDirective(d) => {
                let mut s = String::from_str("unknown format specifier ");
                push_char(&mut s, d);
                s.append(". Must be one of '%nbrhx'");
                assert(s@ =~= error_message(*self));
                s
            },
            FormatError::UnknownEscapeDirective(d) => {
                let mut s = String::from_str("unknown modifier ");
                push_char(&mut s, d);
                s.append(". Must be one of 'ntr\\'");
                assert(s@ =~= error_message(*self));
                s
            },
        }
    }
}

/// `%d` with a character outside the color directive set fails at once,
/// naming `d`, whatever the color and whatever follows.
pub proof fn lemma_unknown_color_directive(d: char, t: Seq<char>, c: Color)
    requires
        !color_directive_chars().contains(d),
    ensures
        paint_spec(seq!['%', d] + t, c) == (
            Seq::<char>::empty(),
            Err::<(), FormatError>(FormatError::UnknownColorDirective(d)),
        ),
{
    assert(d != '%' && d != 'n' && d != 'b' && d != 'r' && d != 'h' && d != 'x') by {
        assert(color_directive_chars()[0] == '%');
        assert(color_directive_chars()[1] == 'n');
        assert(color_directive_chars()[2] == 'b');
        assert(color_directive_chars()[3] == 'r');
        assert(color_directive_chars()[4] == 'h');
        assert(color_directive_chars()[5] == 'x');
    }
    let s = seq!['%', d] + t;
    assert(s[0] == '%' && s[1] == d);
}

/// `\d` with a character outside the escape directive set fails at once,
/// naming `d`, whatever the color and whatever follows.
pub proof fn lemma_unknown_escape_directive(d: char, t: Seq<char>, c: Color)
    requires
        !escape_directive_chars().contains(d),
    ensures
        paint_spec(seq!['\\', d] + t, c) == (
            Seq::<char>::empty(),
            Err::<(), FormatError>(FormatError::UnknownEscapeDirective(d)),
        ),
{
    assert(d != 'n' && d != 't' && d != 'r' && d != '\\') by {
        assert(escape_directive_chars()[0] == 'n');
        assert(escape_directive_chars()[1] == 't');
        assert(escape_directive_chars()[2] == 'r');
        assert(escape_directive_chars()[3] == '\\');
    }
    let s = seq!['\\', d] + t;
    assert(s[0] == '\\' && s[1] == d);
}

/// A template, evaluated anew for each color it is painted with.
pub struct Format<'a> {
    pub template: &'a str,
}

impl<'a> Format<'a> {
    /// A format for `template`; nothing is checked until it is painted.
    pub fn new(template: &'a str) -> (r: Self)
        ensures
            r.template@ == template@,
    {
        Self { template }
    }

    /// Evaluates the template for `color`, appending the output to `out`.
    /// The output depends on the template and the color alone; on an error,
    /// what was written before the failing directive stays in `out`.
    pub fn paint(&self, color: &Color, out: &mut String) -> (r: Result<(), FormatError>)
        ensures
            final(out)@ == old(out)@ + paint_spec(self.template@, *color).0,
            r == paint_spec(self.template@, *color).1,
    {
        let mut chars = self.template.chars();
        loop
            invariant
                chars.obeys_prophetic_iter_laws(),
                chars.decrease() is Some,
                out@ + paint_spec(chars.remaining(), *color).0 == old(out)@ + paint_spec(
                    self.template@,
                    *color,
                ).0,
                paint_spec(chars.remaining(), *color).1 == paint_spec(self.template@, *color).1,
            decreases chars.decrease()->0,
        {
            let ghost rem = chars.remaining();
            let ch = match chars.next() {
                Some(ch) => ch,
                None => {
                    assert(out@ =~= old(out)@ + paint_spec(self.template@, *color).0);
                    return Ok(());
                },
            };
            if ch == '%' || ch == '\\' {
                let next = match chars.next() {
                    Some(next) => next,
                    None => {
                        assert(out@ =~= old(out)@ + paint_spec(self.template@, *color).0);
                        return Err(FormatError::UnterminatedDirective);
                    },
                };
                assert(chars.remaining() =~= rem.subrange(2, rem.len() as int));
                if ch == '%' {
                    match push_color_directive(out, next, color) {
                        Ok(()) => {},
                        Err(e) => {
                            assert(out@ =~= old(out)@ + paint_spec(self.template@, *color).0);
                            return Err(e);
                        },
                    }
                } else {
                    match escape_char(next) {
                        Ok(c) => {
                            push_char(out, c);
                        },
                        Err(e) => {
                            assert(out@ =~= old(out)@ + paint_spec(self.template@, *color).0);
                            return Err(e);
                        },
                    }
                }
            } else {
                push_char(out, ch);
            }
            assert(out@ + paint_spec(chars.remaining(), *color).0 =~= old(out)@ + paint_spec(
                self.template@,
                *color,
            ).0);
        }
    }
}

} // verus!
