//! The views the appliance can show.

pub mod light;

pub use self::light::LightView;
use crate::peripherals::display::Display;
use vstd::prelude::*;

verus! {

/// One screen's content.
pub trait View {
    /// The name the view was made under.
    spec fn name(&self) -> Seq<char>;

    /// What drawing the view does to a display: `after` is the display
    /// that `before` becomes.
    spec fn shows(&self, before: Display, after: Display) -> bool;

    /// A view under a name.
    fn new(name: &str) -> (view: Self) where Self: Sized
        ensures
            view.name() == vstd::view::View::view(name),
    ;

    /// Draws the view.
    fn render(&self, display: &mut Display)
        requires
            old(display).wf(),
        ensures
            final(display).wf(),
            self.shows(*old(display), *final(display)),
    ;
}

} // verus!
