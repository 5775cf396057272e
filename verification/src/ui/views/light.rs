use crate::peripherals::display::graphics::{blit, Alignment, Color, Figure, Text};
use crate::peripherals::display::Display;
use crate::ui::views::View;
use vstd::prelude::*;

verus! {

/// The screen of one lamp: the lamp's name in white, centred on the panel.
pub struct LightView {
    name: String,
}

impl LightView {
    /// The text the view draws.
    pub open spec fn label(&self) -> Text {
        Text {
            content: self.caption(),
            x: 120,
            y: 120,
            alignment: Alignment::Center,
            color: Color(255, 255, 255),
        }
    }

    /// The lamp's name as the view holds it.
    pub closed spec fn caption(&self) -> String {
        self.name
    }
}

impl View for LightView {
    open spec fn name(&self) -> Seq<char> {
        vstd::view::View::view(&self.caption())
    }

    /// The label is drawn into the framebuffer; nothing is queued for the
    /// panel.
    open spec fn shows(&self, before: Display, after: Display) -> bool {
        &&& after.frame() == blit(before.frame(), self.label().pixels())
        &&& after.wire() == before.wire()
        &&& after.settings() == before.settings()
        &&& after.asleep() == before.asleep()
    }

    fn new(name: &str) -> (view: Self) {
        Self { name: name.to_owned() }
    }

    fn render(&self, display: &mut Display) {
        let text = Text {
            content: self.name.clone(),
            x: 120,
            y: 120,
            alignment: Alignment::Center,
            color: Color::white(),
        };
        display.draw(&text);
    }
}

} // verus!
