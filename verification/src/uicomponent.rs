use crate::terminal::{CommandView, Size, Terminal};
use vstd::prelude::*;

verus! {

/// What every part of the screen offers: it has an extent, knows whether what
/// it last drew is out of date, and can draw itself from a given row down.
pub trait UIComponent: Sized {
    /// Whether the component has to be drawn again.
    spec fn redraw_pending(&self) -> bool;

    /// This component with its redraw flag set to `needs_redraw`.
    spec fn with_redraw(&self, needs_redraw: bool) -> Self;

    /// This component with its extent set to `size`.
    spec fn with_size(&self, size: Size) -> Self;

    /// Whether every screen row that drawing from `start_row` down reaches
    /// has a number.
    spec fn fits(&self, start_row: usize) -> bool;

    /// The commands that drawing this component from `start_row` down takes.
    spec fn drawing(&self, start_row: usize) -> Seq<CommandView>;

    fn set_redraw(&mut self, needs_redraw: bool)
        ensures
            *final(self) == old(self).with_redraw(needs_redraw),
    ;

    fn needs_redraw(&self) -> (res: bool)
        ensures
            res == self.redraw_pending(),
    ;

    /// Takes a new extent and asks for a redraw.
    fn resize(&mut self, size: Size)
        ensures
            *final(self) == old(self).with_size(size).with_redraw(true),
    {
        self.set_size(size);
        self.set_redraw(true);
    }

    fn set_size(&mut self, size: Size)
        ensures
            *final(self) == old(self).with_size(size),
    ;

    /// Draws the component if it is out of date, and marks it as up to date
    /// in either case.
    fn render(&mut self, start_row: usize, terminal: &mut Terminal)
        requires
            old(self).fits(start_row),
        ensures
            *final(self) == old(self).with_redraw(false),
            final(terminal)@ == old(terminal)@ + (if old(self).redraw_pending() {
                old(self).drawing(start_row)
            } else {
                Seq::<CommandView>::empty()
            }),
    {
        if self.needs_redraw() {
            self.draw(start_row, terminal);
        }
        self.set_redraw(false);
    }

    fn draw(&mut self, start_row: usize, terminal: &mut Terminal)
        requires
            old(self).fits(start_row),
        ensures
            *final(self) == *old(self),
            final(terminal)@ == old(terminal)@ + old(self).drawing(start_row),
    ;
}

} // verus!
