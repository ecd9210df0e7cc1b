//! Printing a whole palette: one template painted for each color in turn.

use vstd::prelude::*;

use crate::color::{Color, Flavor};
use crate::format::{paint_spec, Format, FormatError};

verus! {

/// The output of painting `t` for each of `cs` in order, stopping at the
/// first color whose painting fails; on a failure, the output ends with what
/// that color's painting wrote before the failing directive.
pub open spec fn print_spec(t: Seq<char>, cs: Seq<Color>) -> (Seq<char>, Result<(), FormatError>)
    decreases cs.len(),
{
    if cs.len() == 0 {
        (Seq::empty(), Ok(()))
    } else {
        let first = paint_spec(t, cs[0]);
        if first.1 is Err {
            first
        } else {
            let rest = print_spec(t, cs.drop_first());
            (first.0 + rest.0, rest.1)
        }
    }
}

/// The output of painting `t` for each of `cs`, one entry per color.
pub open spec fn paint_outputs(t: Seq<char>, cs: Seq<Color>) -> Seq<Seq<char>> {
    cs.map_values(|c: Color| paint_spec(t, c).0)
}

/// The template that a new printer paints each color with.
pub open spec fn default_template() -> Seq<char> {
    "%n %b │ %x │ %r │ %h\n"@
}

/// Prints the colors of a palette with one template.
pub struct PalettePrinter<'a> {
    pub format: Format<'a>,
    pub flavor: Flavor,
}

impl<'a> PalettePrinter<'a> {
    /// A printer for `flavor` with the built-in template: name, swatch, hex,
    /// rgb and hsl, separated by bars, one line per color.
    pub fn new(flavor: Flavor) -> (r: Self)
        ensures
            r.format.template@ == default_template(),
            r.flavor == flavor,
    {
        Self { format: Format::new("%n %b │ %x │ %r │ %h\n"), flavor }
    }

    /// Replaces the template used by later prints; it is not checked here.
    pub fn set_format(&mut self, format: Format<'a>)
        ensures
            final(self).format.template@ == format.template@,
            final(self).flavor == old(self).flavor,
    {
        self.format = format;
    }

    /// The flavor whose palette this printer is meant for.
    pub fn flavor(&self) -> (r: Flavor)
        ensures
            r == self.flavor,
    {
        self.flavor
    }

    /// Paints the template for each of `colors` in order, appending to `out`,
    /// and stops at the first failure, whose error it returns. What was
    /// written before the failure stays in `out`.
    pub fn print(&self, colors: &[Color], out: &mut String) -> (r: Result<(), FormatError>)
        ensures
            final(out)@ == old(out)@ + print_spec(self.format.template@, colors@).0,
            r == print_spec(self.format.template@, colors@).1,
    {
        let ghost t = self.format.template@;
        let mut i: usize = 0;
        assert(colors@.skip(0) =~= colors@);
        while i < colors.len()
            invariant
                i <= colors@.len(),
                t == self.format.template@,
                out@ + print_spec(t, colors@.skip(i as int)).0 == old(out)@ + print_spec(
                    t,
                    colors@,
                ).0,
                print_spec(t, colors@.skip(i as int)).1 == print_spec(t, colors@).1,
            decreases colors@.len() - i,
        {
            let ghost before = out@;
            assert(colors@.skip(i as int).drop_first() =~= colors@.skip(i + 1));
            assert(colors@.skip(i as int)[0] == colors@[i as int]);
            match self.format.paint(&colors[i], out) {
                Ok(()) => {},
                Err(e) => {
                    assert(out@ =~= old(out)@ + print_spec(t, colors@).0);
                    return Err(e);
                },
            }
            i = i + 1;
            assert(out@ + print_spec(t, colors@.skip(i as int)).0 =~= old(out)@ + print_spec(
                t,
                colors@,
            ).0);
        }
        assert(colors@.skip(i as int) =~= Seq::<Color>::empty());
        assert(out@ =~= old(out)@ + print_spec(t, colors@).0);
        Ok(())
    }
}

/// When every color paints without error, printing succeeds and its output
/// is the concatenation, in palette order, of each color's own output.
pub proof fn lemma_print_concatenates(t: Seq<char>, cs: Seq<Color>)
    requires
        forall|i: int| 0 <= i < cs.len() ==> (#[trigger] paint_spec(t, cs[i])).1 is Ok,
    ensures
        print_spec(t, cs) == (paint_outputs(t, cs).flatten(), Ok::<(), FormatError>(())),
    decreases cs.len(),
{
    if cs.len() > 0 {
        assert(paint_spec(t, cs[0]).1 is Ok);
        let rest = cs.drop_first();
        assert forall|i: int| 0 <= i < rest.len() implies (#[trigger] paint_spec(t, rest[i])).1 is Ok by {
            assert(rest[i] == cs[i + 1]);
        }
        lemma_print_concatenates(t, rest);
        assert(paint_outputs(t, cs).drop_first() =~= paint_outputs(t, rest));
    }
}

/// When the colors before index `k` paint without error and color `k` fails,
/// printing fails with that color's error, and its output is the full output
/// of the colors before `k` followed by what color `k` wrote before its
/// failing directive; nothing of the colors after `k` is written.
pub proof fn lemma_print_stops_at_first_failure(t: Seq<char>, cs: Seq<Color>, k: int)
    requires
        0 <= k < cs.len(),
        forall|i: int| 0 <= i < k ==> (#[trigger] paint_spec(t, cs[i])).1 is Ok,
        paint_spec(t, cs[k]).1 is Err,
    ensures
        print_spec(t, cs) == (paint_outputs(t, cs.take(k)).flatten() + paint_spec(t, cs[k]).0,
            paint_spec(t, cs[k]).1),
    decreases k,
{
    if k == 0 {
        assert(paint_outputs(t, cs.take(0)) =~= Seq::<Seq<char>>::empty());
        assert(paint_outputs(t, cs.take(0)).flatten() + paint_spec(t, cs[0]).0 =~= paint_spec(
            t,
            cs[0],
        ).0);
    } else {
        assert(paint_spec(t, cs[0]).1 is Ok);
        let rest = cs.drop_first();
        assert forall|i: int| 0 <= i < k - 1 implies (#[trigger] paint_spec(t, rest[i])).1 is Ok by {
            assert(rest[i] == cs[i + 1]);
        }
        assert(rest[k - 1] == cs[k]);
        lemma_print_stops_at_first_failure(t, rest, k - 1);
        assert(paint_outputs(t, cs.take(k)).drop_first() =~= paint_outputs(t, rest.take(k - 1)));
        assert(paint_outputs(t, cs.take(k))[0] == paint_spec(t, cs[0]).0);
    }
}

} // verus!
