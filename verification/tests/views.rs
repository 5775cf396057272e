use smartknob::hardware::spi::SpiInterface;
use smartknob::peripherals::display::graphics::{Alignment, Color, Text};
use smartknob::peripherals::display::Display;
use smartknob::ui::{LightView, View, ViewManager};

fn display() -> Display {
    Display::new(SpiInterface::new(40).unwrap())
}

fn label(name: &str) -> Text {
    Text {
        content: String::from(name),
        x: 120,
        y: 120,
        alignment: Alignment::Center,
        color: Color(255, 255, 255),
    }
}

#[test]
fn a_new_manager_is_empty() {
    let manager: ViewManager<LightView> = ViewManager::new();
    assert!(manager.is_empty());
    assert_eq!(manager.len(), 0);
    let manager: ViewManager<LightView> = ViewManager::default();
    assert_eq!(manager.len(), 0);
}

#[test]
fn added_views_are_counted() {
    let mut manager = ViewManager::new();
    manager.add(LightView::new("Luz Dormitorio"));
    assert!(!manager.is_empty());
    manager.add(LightView::new("Luz Salon"));
    assert_eq!(manager.len(), 2);
}

#[test]
fn a_light_view_shows_its_name_in_white_at_the_centre() {
    let mut shown = display();
    LightView::new("Luz Salon").render(&mut shown);
    let mut expected = display();
    expected.draw(&label("Luz Salon"));
    assert_eq!(shown.buffer(), expected.buffer());
    assert!(shown.buffer().iter().any(|&byte| byte == 0xFF));
    assert!(shown.take_signals().is_empty());
}

#[test]
fn selecting_draws_the_view_at_the_index() {
    let mut manager = ViewManager::new();
    manager.add(LightView::new("Luz Dormitorio"));
    manager.add(LightView::new("Luz Salon"));
    for (index, name) in ["Luz Dormitorio", "Luz Salon"].iter().enumerate() {
        let mut shown = display();
        manager.select(index, &mut shown);
        let mut expected = display();
        expected.draw(&label(name));
        assert_eq!(shown.buffer(), expected.buffer());
    }
}

#[test]
fn selecting_past_the_end_draws_nothing() {
    let mut manager = ViewManager::new();
    manager.add(LightView::new("Luz Salon"));
    let mut shown = display();
    manager.select(1, &mut shown);
    manager.select(usize::MAX, &mut shown);
    assert!(shown.buffer().iter().all(|&byte| byte == 0));
    assert!(shown.take_signals().is_empty());
}

#[test]
fn turns_go_through_the_views_and_one_blank_turn() {
    let mut manager = ViewManager::new();
    assert_eq!(manager.next(0), 0);
    manager.add(LightView::new("Luz Dormitorio"));
    manager.add(LightView::new("Luz Salon"));
    assert_eq!(manager.next(0), 1);
    assert_eq!(manager.next(1), 2);
    assert_eq!(manager.next(2), 0);
    assert_eq!(manager.next(usize::MAX), 0);
}
