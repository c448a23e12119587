use minifb_tile_base::graphics::color::ColorMap;

#[test]
fn a_new_palette_is_empty() {
    let palette = ColorMap::new();
    assert_eq!(palette.get(0), None);
    assert_eq!(palette.get(usize::MAX), None);
}

#[test]
fn add_gives_back_what_was_there() {
    let mut palette = ColorMap::new();
    assert_eq!(palette.add(3, 0xFF0000), None);
    assert_eq!(palette.add(4, 0x00FF00), None);
    assert_eq!(palette.add(3, 0x0000FF), Some(0xFF0000));
    assert_eq!(palette.get(3), Some(&0x0000FF));
    assert_eq!(palette.get(4), Some(&0x00FF00));
    assert_eq!(palette.get(5), None);
}

#[test]
fn get_mut_writes_one_colour() {
    let mut palette = ColorMap::new();
    palette.add(1, 10);
    palette.add(2, 20);
    match palette.get_mut(2) {
        Some(value) => {
            assert_eq!(*value, 20);
            *value = 21;
        }
        None => panic!("the palette holds a colour under 2"),
    }
    assert_eq!(palette.get(2), Some(&21));
    assert_eq!(palette.get(1), Some(&10));
    assert!(palette.get_mut(3).is_none());
    assert_eq!(palette.get(3), None);
}
