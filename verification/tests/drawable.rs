use shitty::color::Color;
use shitty::drawable::{Drawable, OwnedDrawable};

#[test]
fn new_surface_is_transparent_and_pitch_defaults_to_width() {
    let d = OwnedDrawable::with_capacity(4, 3, 0);
    assert_eq!(d.pitch, 4);
    assert_eq!(d.buf.len(), 12);
    assert!(d.buf.iter().all(|c| *c == Color::zero()));
}

#[test]
fn pixels_are_addressed_by_pitch() {
    let mut d = OwnedDrawable::with_capacity(2, 2, 3);
    d.set(1, 1, Color::rgb(1, 2, 3));
    assert_eq!(d.get(1, 1), Color::rgb(1, 2, 3));
    assert_eq!(d.buf[4], Color::rgb(1, 2, 3));
    d.set_index(5, Color::white());
    assert_eq!(d.into_vec()[5], Color::white());
}

#[test]
fn clear_and_map_touch_every_pixel() {
    let mut d = OwnedDrawable::from_vec(vec![Color::zero(); 6], 3, 2, 0);
    d.clear(Color::rgb(10, 20, 30));
    d.map(|c| Color { r: c.b, g: c.g, b: c.r, a: c.a });
    assert!(d.buf.iter().all(|c| *c == Color::rgb(30, 20, 10)));
}

#[test]
fn iter_reports_columns_and_rows_by_width() {
    let d = OwnedDrawable::with_capacity(2, 2, 0);
    let v = d.iter();
    assert_eq!(v.len(), 4);
    assert_eq!((v[3].0, v[3].1), (1, 1));
    assert_eq!((v[2].0, v[2].1), (0, 1));
}

#[test]
fn borrowed_surface_writes_into_the_callers_buffer() {
    let mut pixels = vec![Color::zero(); 8];
    {
        let mut d = Drawable::new(&mut pixels, 2, 2, 4);
        d.set(1, 1, Color::rgb(5, 5, 5));
        assert_eq!(d.get(1, 1), Color::rgb(5, 5, 5));
        d.set_index(0, Color::white());
        d.map(|c| if c == Color::zero() { Color::black() } else { c });
        assert_eq!(d.iter().len(), 8);
    }
    assert_eq!(pixels[5], Color::rgb(5, 5, 5));
    assert_eq!(pixels[0], Color::white());
    assert_eq!(pixels[1], Color::black());
    let mut d = Drawable::new(&mut pixels, 2, 2, 0);
    assert_eq!(d.pitch, 2);
    d.clear(Color::gray(1));
    assert!(pixels.iter().all(|c| *c == Color::gray(1)));
}
