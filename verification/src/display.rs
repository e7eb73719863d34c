//! The framebuffer console: colours, fonts and the writer that draws text.
pub mod colour;
pub mod fonts;
pub mod writer;

use vstd::prelude::*;
use crate::display::colour::Colour;
use crate::display::writer::{Writer, fill_pixels, pixel_bytes, printable, text_view, ConsoleView};

verus! {

/// Fills the back buffer of the console with its background colour.
pub fn clear_screen(writer: &mut Writer)
    requires
        old(writer).wf(),
    ensures
        final(writer).wf(),
        final(writer).same_setup(old(writer)),
        final(writer)@ == (ConsoleView {
            back: fill_pixels(old(writer)@.back.len(), pixel_bytes(old(writer).spec_info().pixel_format, old(writer).spec_bg())),
            ..old(writer)@
        }),
{
    writer.clear_screen();
}

/// Writes `s` to the console in its foreground colour.
pub fn _kprint(writer: &mut Writer, s: &str)
    requires
        old(writer).wf(),
        forall|i: int| 0 <= i < s@.len() ==> printable(old(writer).spec_font(), #[trigger] s@[i]),
    ensures
        final(writer).wf(),
        final(writer).same_setup(old(writer)),
        final(writer)@ == text_view(
            old(writer)@,
            old(writer).spec_info(),
            old(writer).spec_font(),
            old(writer).spec_fg(),
            old(writer).spec_bg(),
            s@,
        ),
{
    writer.write_str(s);
}

/// Writes `s` to the console in `colour`, then restores the foreground
/// colour that the console had.
pub fn _kprint_with_colour(writer: &mut Writer, colour: Colour, s: &str)
    requires
        old(writer).wf(),
        forall|i: int| 0 <= i < s@.len() ==> printable(old(writer).spec_font(), #[trigger] s@[i]),
    ensures
        final(writer).wf(),
        final(writer).same_setup(old(writer)),
        final(writer)@ == text_view(
            old(writer)@,
            old(writer).spec_info(),
            old(writer).spec_font(),
            colour,
            old(writer).spec_bg(),
            s@,
        ),
{
    let fg = writer.colour_fg();
    writer.set_colour_fg(colour);
    writer.write_str(s);
    writer.set_colour_fg(fg);
}

} // verus!
