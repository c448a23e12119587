use minifb_tile_base::entity::entity::{Entity, Player};
use minifb_tile_base::graphics::map::TileMap;
use minifb_tile_base::graphics::pixel::Pixel;
use minifb_tile_base::graphics::tile::TileBase;
use minifb_tile_base::tools::color::Color;
use minifb_tile_base::tools::dual_trait::Algebra;
use minifb_tile_base::tools::matrix::Matrix;
use minifb_tile_base::tools::transform::{Dimensions, Position, Rotation, Transform};
use minifb_tile_base::window::WindowController;

struct Sprite {
    name: u8,
    transform: Transform,
    tile: TileBase,
    order: usize,
}

impl Entity for Sprite {
    type Image = TileBase;

    fn transform(&self) -> Transform {
        self.transform
    }

    fn tile(&self) -> TileBase {
        self.tile.clone()
    }

    fn order(&self) -> usize {
        self.order
    }

    fn get_position_matrix(&self) -> (&Transform, &TileBase) {
        (&self.transform, &self.tile)
    }

    fn get_order(&self) -> &usize {
        &self.order
    }
}

fn grey(level: u8) -> Color {
    Color { red: level, green: level, blue: level }
}

fn packed(level: u8) -> u32 {
    u32::from(grey(level))
}

/// A tile of the given extent; 0 stands for no pixel, any other level for
/// a pixel of that grey.
fn tile(width: usize, height: usize, levels: Vec<u8>) -> TileBase {
    let values = levels
        .into_iter()
        .map(|l| if l == 0 { Pixel::Absent } else { Pixel::Color(grey(l)) })
        .collect();
    TileBase::from_usize(0, Matrix { values, dimensions: Dimensions::new(width, height), wrapping: false })
}

fn sprite(name: u8, x: usize, y: usize, rotation: Rotation, tile: TileBase, order: usize) -> Sprite {
    Sprite { name, transform: Transform { position: Position::new(x, y), rotation }, tile, order }
}

fn square(name: u8, x: usize, y: usize, level: u8, order: usize) -> Sprite {
    sprite(name, x, y, Rotation::UP, tile(2, 2, vec![level; 4]), order)
}

fn background(width: usize, height: usize, level: u8) -> WindowController {
    let mut controller = WindowController::new(Dimensions::new(width, height), false);
    for value in controller.matrix.values.iter_mut() {
        *value = grey(level);
    }
    controller
}

fn levels(controller: &WindowController) -> Vec<u32> {
    controller.buffer().iter().map(|v| v & 0xFF).collect()
}

#[test]
fn a_new_controller_is_black() {
    let controller = WindowController::new(Dimensions::new(3, 2), true);
    assert_eq!(controller.buffer(), &vec![0u32; 6]);
    assert_eq!(controller.matrix.values.len(), 6);
    assert!(controller.matrix.values.iter().all(|c| u32::from(*c) == 0));
    assert_eq!((controller.matrix.dimensions.width, controller.matrix.dimensions.height), (3, 2));
    assert!(controller.matrix.wrapping);
}

#[test]
fn update_buffer_packs_the_colours() {
    let mut controller = WindowController::new(Dimensions::new(2, 1), false);
    let colors = vec![
        Color { red: 0x12, green: 0x34, blue: 0x56 },
        Color { red: 0, green: 0, blue: 1 },
        Color { red: 255, green: 255, blue: 255 },
    ];
    controller.update_buffer(colors.into_iter());
    assert_eq!(controller.buffer(), &vec![0x123456, 0x000001, 0xFFFFFF]);
    assert!(controller.matrix.values.iter().all(|c| u32::from(*c) == 0));
}

#[test]
fn without_entities_the_background_is_shown() {
    let mut controller = background(3, 2, 9);
    let mut none: Vec<Sprite> = Vec::new();
    controller.update_with_entities(&mut none);
    assert_eq!(controller.buffer(), &vec![packed(9); 6]);
}

#[test]
fn entities_are_drawn_over_the_background_which_stays() {
    let mut controller = background(4, 3, 9);
    let mut entities = vec![sprite(1, 1, 1, Rotation::UP, tile(2, 2, vec![1, 0, 0, 4]), 0)];
    controller.update_with_entities(&mut entities);
    assert_eq!(
        levels(&controller),
        vec![
            9, 9, 9, 9, //
            9, 1, 9, 9, //
            9, 9, 4, 9,
        ]
    );
    assert!(controller.matrix.values.iter().all(|c| c.red == 9));
    controller.update_with_entities(&mut entities);
    assert_eq!(levels(&controller)[5], 1);
}

#[test]
fn the_highest_order_shows_and_later_entities_win_ties() {
    // Orders 3, 1, 1, 2: all four cover the cell (2, 2).
    let mut controller = background(5, 5, 9);
    let mut entities = vec![
        square(b'a', 1, 1, 30, 3),
        square(b'b', 2, 2, 11, 1),
        square(b'c', 2, 1, 12, 1),
        square(b'd', 1, 2, 20, 2),
    ];
    controller.update_with_entities(&mut entities);
    let shown = levels(&controller);
    let at = |x: usize, y: usize| shown[y * 5 + x];
    // (2, 2): a, b, c and d; a has the highest order.
    assert_eq!(at(2, 2), 30);
    // (3, 2): b and c, of one order; c came later.
    assert_eq!(at(3, 2), 12);
    // (2, 3): b and d; d has the higher order.
    assert_eq!(at(2, 3), 20);
    // (3, 3): b alone.
    assert_eq!(at(3, 3), 11);
    // (1, 1): a alone; (3, 1): c alone; (1, 3): d alone.
    assert_eq!(at(1, 1), 30);
    assert_eq!(at(3, 1), 12);
    assert_eq!(at(1, 3), 20);
    // (2, 1): a and c; (1, 2): a and d.
    assert_eq!(at(2, 1), 30);
    assert_eq!(at(1, 2), 30);
    // Nothing covers the border.
    assert_eq!(at(0, 0), 9);
    assert_eq!(at(4, 4), 9);
    // The entities stay sorted: by order, ties in the order given.
    let names: Vec<u8> = entities.iter().map(|e| e.name).collect();
    assert_eq!(names, vec![b'b', b'c', b'd', b'a']);
}

#[test]
fn sorting_is_stable_for_many_entities() {
    let mut controller = background(1, 1, 0);
    let orders = [5usize, 1, 5, 0, 1, 5, 0, 3, 1];
    let mut entities: Vec<Sprite> = orders
        .iter()
        .enumerate()
        .map(|(i, order)| square(i as u8, 0, 0, (i + 1) as u8, *order))
        .collect();
    controller.update_with_entities(&mut entities);
    let sorted: Vec<(usize, u8)> = entities.iter().map(|e| (e.order, e.name)).collect();
    assert_eq!(
        sorted,
        vec![(0, 3), (0, 6), (1, 1), (1, 4), (1, 8), (3, 7), (5, 0), (5, 2), (5, 5)]
    );
    // The last of the highest order shows.
    assert_eq!(levels(&controller), vec![6]);
}

#[test]
fn an_entity_is_turned_to_its_facing() {
    // 1 2 3
    // 4 5 6
    let image = || tile(3, 2, vec![1, 2, 3, 4, 5, 6]);
    let mut up = background(3, 3, 9);
    up.update_with_entities(&mut [sprite(0, 0, 0, Rotation::UP, image(), 0)]);
    assert_eq!(levels(&up), vec![1, 2, 3, 4, 5, 6, 9, 9, 9]);

    let mut down = background(3, 3, 9);
    down.update_with_entities(&mut [sprite(0, 0, 0, Rotation::DOWN, image(), 0)]);
    assert_eq!(levels(&down), vec![6, 5, 4, 3, 2, 1, 9, 9, 9]);

    let mut right = background(3, 3, 9);
    right.update_with_entities(&mut [sprite(0, 0, 0, Rotation::RIGHT, image(), 0)]);
    assert_eq!(levels(&right), vec![3, 6, 9, 2, 5, 9, 1, 4, 9]);

    let mut left = background(3, 3, 9);
    left.update_with_entities(&mut [sprite(0, 0, 0, Rotation::LEFT, image(), 0)]);
    assert_eq!(levels(&left), vec![4, 1, 9, 5, 2, 9, 6, 3, 9]);
}

#[test]
fn an_entity_at_the_border_is_clipped() {
    let mut controller = background(3, 3, 9);
    let mut entities = vec![
        sprite(0, 2, 1, Rotation::UP, tile(2, 2, vec![1, 2, 3, 4]), 0),
        sprite(1, 7, 7, Rotation::UP, tile(2, 2, vec![5, 5, 5, 5]), 1),
        sprite(2, usize::MAX, 0, Rotation::RIGHT, tile(2, 2, vec![5, 5, 5, 5]), 2),
    ];
    controller.update_with_entities(&mut entities);
    assert_eq!(levels(&controller), vec![9, 9, 9, 9, 9, 1, 9, 9, 3]);
}

#[test]
fn a_player_is_drawn_like_any_entity() {
    let mut controller = background(2, 2, 9);
    let player = Player {
        transform: Transform { position: Position::new(1, 0), rotation: Rotation::DOWN },
        matrix: Matrix {
            values: vec![Pixel::Color(grey(1)), Pixel::Absent],
            dimensions: Dimensions::new(1, 2),
            wrapping: false,
        },
    };
    controller.update_with_entities(&mut [player]);
    assert_eq!(levels(&controller), vec![9, 9, 9, 1]);
}

#[test]
fn a_new_tile_map_is_empty_with_a_black_buffer() {
    let map: TileMap<TileBase> = TileMap::new(Dimensions::new(3, 2), true, Dimensions::new(4, 5));
    assert_eq!(map.map.values.len(), 6);
    assert!(map.map.values.iter().all(|cell| cell.is_none()));
    assert_eq!((map.buffer.dimensions.width, map.buffer.dimensions.height), (12, 10));
    assert_eq!(map.buffer.values.len(), 120);
    assert!(map.buffer.values.iter().all(|c| u32::from(*c) == 0));
    assert!(map.map.wrapping && map.buffer.wrapping);
}

#[test]
fn tile_map_update_buffer_lays_each_tile_on_its_place() {
    let mut map: TileMap<TileBase> =
        TileMap::new(Dimensions::new(2, 2), false, Dimensions::new(2, 2));
    for value in map.buffer.values.iter_mut() {
        *value = grey(9);
    }
    map.map.values[0] = Some(tile(2, 2, vec![1, 2, 3, 4]));
    map.map.values[1] = Some(tile(2, 2, vec![5, 0, 0, 6]));
    map.map.values[3] = Some(tile(2, 2, vec![0, 7, 8, 0]));
    map.update_buffer();
    let shown: Vec<u8> = map.buffer.values.iter().map(|c| c.red).collect();
    assert_eq!(
        shown,
        vec![
            1, 2, 5, 9, //
            3, 4, 9, 6, //
            9, 9, 9, 7, //
            9, 9, 8, 9,
        ]
    );
    map.update_buffer();
    let again: Vec<u8> = map.buffer.values.iter().map(|c| c.red).collect();
    assert_eq!(again, shown);
}

#[test]
fn tile_map_reads_the_pixels_of_a_tile_by_its_own_tile_extent() {
    let mut map: TileMap<TileBase> =
        TileMap::new(Dimensions::new(1, 1), false, Dimensions::new(2, 2));
    map.map.values[0] = Some(tile(3, 1, vec![1, 2, 3]));
    map.update_buffer();
    let shown: Vec<u8> = map.buffer.values.iter().map(|c| c.red).collect();
    assert_eq!(shown, vec![1, 2, 3, 0]);
}
