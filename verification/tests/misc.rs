use rmms_core::audio::{CreationError, Engine};
use rmms_core::model::Model;
use rmms_core::util::Stereo;

#[test]
fn engine_starts_silent() {
    let mut e = Engine::new();
    assert!(!e.play);
    assert!(!Engine::default().play);
    e.play = true;
    let mut buf = [7i32; 16];
    e.fill_buffer(&mut buf);
    assert_eq!(buf, [0i32; 16]);
    assert!(e.play);
    let mut none: [i32; 0] = [];
    e.fill_buffer(&mut none);
    assert_eq!(CreationError::NoOutputDevice, CreationError::NoOutputDevice);
}

#[test]
fn stereo_holds_left_and_right() {
    let s = Stereo::new(1, 2);
    assert_eq!(s.l, 1);
    assert_eq!(s.r, 2);
    let d: Stereo<u8> = Stereo::default();
    assert_eq!((d.l, d.r), (0, 0));
}

#[test]
fn model_shows_its_value_through_the_map() {
    let mut m = Model::new(10i32, Some(0..=100), "Volume".to_string(), |x| x * 2, |x| x / 2);
    assert_eq!(m.get_unmapped_value(), 10);
    assert_eq!(m.get_value(), 20);
    assert_eq!(m.map(7), 14);
    assert_eq!(m.reverse_map(14), 7);
    assert!(!m.was_changed);
    m.set_value(50);
    assert_eq!(m.get_unmapped_value(), 25);
    assert_eq!(m.get_value(), 50);
    assert!(m.was_changed);
    m.set_unmapped_value(3);
    assert_eq!(m.get_unmapped_value(), 3);
    assert_eq!(m.get_value(), 6);
}

#[test]
fn model_has_a_range_and_names() {
    let mut m = Model::new(10i32, Some(0..=100), "Volume".to_string(), |x| x + 1, |x| x - 1);
    assert_eq!(m.range(), Some(0..=100));
    assert_eq!(m.mapped_range(), Some(0..=100));
    assert_eq!(m.display_name(), "Volume");
    assert_eq!(m.full_display_name(), &None);
    m.set_display_name("Vol".to_string());
    m.set_full_display_name(Some("Master volume".to_string()));
    assert_eq!(m.display_name(), "Vol");
    assert_eq!(m.full_display_name(), &Some("Master volume".to_string()));
    assert!(!m.was_changed);
    let none = Model::new(1u8, None, "x".to_string(), |x| x, |x| x);
    assert_eq!(none.range(), None);
    assert_eq!(none.mapped_range(), None);
}

#[test]
fn model_takes_a_new_map() {
    fn double(x: i32) -> i32 {
        x * 2
    }
    fn half(x: i32) -> i32 {
        x / 2
    }
    fn triple(x: i32) -> i32 {
        x * 3
    }
    fn third(x: i32) -> i32 {
        x / 3
    }
    let mut m = Model::new(
        4i32,
        None,
        "n".to_string(),
        double as fn(i32) -> i32,
        half as fn(i32) -> i32,
    );
    assert_eq!(m.get_value(), 8);
    m.set_map(triple, third);
    assert_eq!(m.get_value(), 12);
    assert_eq!(m.reverse_map(12), 4);
    assert_eq!(m.get_unmapped_value(), 4);
}
