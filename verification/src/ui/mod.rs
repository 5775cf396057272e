//! Views: whole screens that can be drawn on request.

pub mod views;

pub use self::views::{LightView, View};
use crate::peripherals::display::Display;
use vstd::prelude::*;

verus! {

/// An ordered list of views, one of which is drawn at a time.
pub struct ViewManager<V: View> {
    views: Vec<V>,
}

impl<V: View> ViewManager<V> {
    /// The views, in the order they were added.
    pub closed spec fn views(&self) -> Seq<V> {
        vstd::view::View::view(&self.views)
    }

    pub fn new() -> (manager: Self)
        ensures
            manager.views() == Seq::<V>::empty(),
    {
        Self { views: Vec::new() }
    }

    /// Adds a view behind those already there.
    pub fn add(&mut self, view: V)
        ensures
            final(self).views() == old(self).views().push(view),
    {
        self.views.push(view);
    }

    /// Draws the view at `index`; where there is none, nothing happens.
    pub fn select(&self, index: usize, display: &mut Display)
        requires
            old(display).wf(),
        ensures
            final(display).wf(),
            index < self.views().len() ==> self.views()[index as int].shows(
                *old(display),
                *final(display),
            ),
            index >= self.views().len() ==> *final(display) == *old(display),
    {
        if index < self.views.len() {
            self.views[index].render(display);
        }
    }

    /// The index whose turn it is after `index`: the views take turns in
    /// their order, then comes one turn past the last view, on which
    /// nothing is drawn, and then the first view again.
    pub fn next(&self, index: usize) -> (following: usize)
        ensures
            index < self.views().len() ==> following == index + 1,
            index >= self.views().len() ==> following == 0,
    {
        if index < self.views.len() {
            index + 1
        } else {
            0
        }
    }

    pub fn len(&self) -> (count: usize)
        ensures
            count == self.views().len(),
    {
        self.views.len()
    }

    pub fn is_empty(&self) -> (empty: bool)
        ensures
            empty <==> self.views().len() == 0,
    {
        self.views.len() == 0
    }
}

impl<V: View> Default for ViewManager<V> {
    fn default() -> (manager: Self)
        ensures
            manager.views() == Seq::<V>::empty(),
    {
        Self::new()
    }
}

} // verus!
