//! A screen of components that know how to draw themselves.

use vstd::prelude::*;

verus! {

/// What can be drawn on a screen.
pub trait Draw {
    /// Draws the component.
    fn draw(&self);
}

/// A screen of components of any types.
pub struct Screen {
    pub components: Vec<Box<dyn Draw>>,
}

impl Screen {
    /// Draws each component once, first to last.
    pub fn run(&self) {
        let mut i: usize = 0;
        while i < self.components.len()
            invariant
                i <= self.components.len(),
            decreases self.components.len() - i,
        {
            self.components[i].draw();
            i += 1;
        }
    }
}

/// A screen whose components are all of one type.
pub struct Screen2<T: Draw> {
    pub components: Vec<T>,
}

impl<T: Draw> Screen2<T> {
    /// Draws each component once, first to last.
    pub fn run(&self) {
        let mut i: usize = 0;
        while i < self.components.len()
            invariant
                i <= self.components.len(),
            decreases self.components.len() - i,
        {
            self.components[i].draw();
            i += 1;
        }
    }
}

/// A button with a label.
#[derive(Debug)]
pub struct Button {
    pub width: u32,
    pub height: u32,
    pub label: String,
}

/// A box of options to choose from.
#[derive(Debug)]
pub struct SelectBox {
    pub width: u32,
    pub height: u32,
    pub options: Vec<String>,
}

} // verus!
