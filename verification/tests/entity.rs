use minifb_tile_base::entity::animation::{AnimationPlayer, AnimationReel};
use minifb_tile_base::entity::entity::{Entity as Drawable, Player};
use minifb_tile_base::entity::Entity;
use minifb_tile_base::graphics::pixel::Pixel;
use minifb_tile_base::graphics::tile::{Tile as Image, TileBase};
use minifb_tile_base::tile::Tile;
use minifb_tile_base::tools::color::Color;
use minifb_tile_base::tools::dual_trait::Algebra;
use minifb_tile_base::tools::matrix::Matrix;
use minifb_tile_base::tools::transform::{Dimensions, Position, Rotation, Transform};
use std::time::Duration;

fn filled(value: u32) -> Tile {
    Tile::Simple(Matrix { values: vec![value], dimensions: Dimensions::new(1, 1), wrapping: false })
}

fn value_of(tile: &Tile) -> u32 {
    match tile {
        Tile::Simple(m) => m.values[0],
        Tile::Transparent(_) => panic!("these tests use simple tiles"),
    }
}

fn image() -> Matrix<Pixel> {
    Matrix {
        values: vec![
            Pixel::Color(Color { red: 1, green: 0, blue: 0 }),
            Pixel::Absent,
            Pixel::Absent,
            Pixel::Color(Color { red: 4, green: 0, blue: 0 }),
        ],
        dimensions: Dimensions::new(2, 2),
        wrapping: false,
    }
}

fn reds<'a>(pixels: impl Iterator<Item = &'a Pixel>) -> Vec<Option<u8>> {
    pixels.map(|p| p.color().map(|c| c.red)).collect()
}

#[test]
fn a_simple_entity_holds_what_it_was_given() {
    let tile = filled(7);
    let entity = Entity::new_simple(3, 4, &tile, 2);
    assert!(matches!(entity, Entity::Simple { .. }));
    assert_eq!(*entity.get_x(), 3);
    assert_eq!(*entity.get_y(), 4);
    assert_eq!(*entity.get_order(), 2);
    assert_eq!(value_of(entity.get_tile()), 7);
    let (x, y, shown) = entity.to_position_matrix();
    assert_eq!((x, y), (3, 4));
    assert_eq!(value_of(shown), 7);
}

#[test]
fn an_animated_entity_shows_the_frame_of_its_player() {
    let first = filled(10);
    let second = filled(20);
    let tiles = [&first, &second];
    let frames = [(1, Duration::from_millis(5)), (0, Duration::from_millis(5))];
    let mut reels = [AnimationReel::new(&frames)];
    let player = AnimationPlayer::new(&tiles, &mut reels);
    let entity = Entity::new_animated(1, 2, &player, 9);
    assert!(matches!(entity, Entity::Animated { .. }));
    assert_eq!(value_of(entity.get_tile()), 20);
    assert_eq!((*entity.get_x(), *entity.get_y(), *entity.get_order()), (1, 2, 9));
    let (x, y, shown) = entity.to_position_matrix();
    assert_eq!((x, y, value_of(shown)), (1, 2, 20));
}

#[test]
fn the_place_of_an_entity_can_be_written() {
    let tile = filled(7);
    let mut entity = Entity::new_simple(3, 4, &tile, 2);
    *entity.get_x_mut() += 10;
    *entity.get_y_mut() = 0;
    assert_eq!((*entity.get_x(), *entity.get_y()), (13, 0));
    assert_eq!(*entity.get_order(), 2);
    assert_eq!(value_of(entity.get_tile()), 7);
    let copy = entity.clone();
    assert_eq!((*copy.get_x(), *copy.get_y(), *copy.get_order()), (13, 0, 2));
}

#[test]
fn a_player_is_its_own_tile_and_is_drawn_first() {
    let player = Player {
        transform: Transform { position: Position::new(5, 6), rotation: Rotation::LEFT },
        matrix: image(),
    };
    assert_eq!(*player.get_order(), 0);
    let (transform, tile) = player.get_position_matrix();
    assert_eq!((transform.position.x, transform.position.y), (5, 6));
    assert!(matches!(transform.rotation, Rotation::LEFT));
    assert_eq!(reds(tile.get_iter()), vec![Some(1), None, None, Some(4)]);
    assert_eq!(tile.get_matrix().dimensions.width, 2);
    let copy = player.clone();
    assert_eq!(reds(copy.get_iter()), vec![Some(1), None, None, Some(4)]);
    assert_eq!((copy.transform.position.x, copy.transform.position.y), (5, 6));
}

#[test]
fn tile_base_kind_is_the_number_modulo_five() {
    assert!(matches!(TileBase::from_usize(0, image()), TileBase::ONE(_)));
    assert!(matches!(TileBase::from_usize(1, image()), TileBase::TWO(_)));
    assert!(matches!(TileBase::from_usize(2, image()), TileBase::THREE(_)));
    assert!(matches!(TileBase::from_usize(3, image()), TileBase::FOUR(_)));
    assert!(matches!(TileBase::from_usize(4, image()), TileBase::FIVE(_)));
    assert!(matches!(TileBase::from_usize(5, image()), TileBase::ONE(_)));
    assert!(matches!(TileBase::from_usize(13, image()), TileBase::FOUR(_)));
}

#[test]
fn tile_base_gives_its_image() {
    for kind in 0..5 {
        let tile = TileBase::from_usize(kind, image());
        assert_eq!(reds(tile.get_iter()), vec![Some(1), None, None, Some(4)]);
        let matrix = tile.get_matrix();
        assert_eq!((matrix.dimensions.width, matrix.dimensions.height), (2, 2));
        let copy = tile.clone();
        assert_eq!(reds(copy.get_iter()), vec![Some(1), None, None, Some(4)]);
    }
    assert!(matches!(TileBase::from_usize(2, image()).clone(), TileBase::THREE(_)));
}
