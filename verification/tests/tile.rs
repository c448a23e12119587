use minifb_tile_base::tile::{Tile, TileLibrary, TileMap};
use minifb_tile_base::tools::dual_trait::Algebra;
use minifb_tile_base::tools::matrix::Matrix;
use minifb_tile_base::tools::transform::Dimensions;

fn simple(width: usize, height: usize, values: Vec<u32>) -> Tile {
    Tile::Simple(Matrix { values, dimensions: Dimensions::new(width, height), wrapping: false })
}

fn transparent(width: usize, height: usize, values: Vec<Option<u32>>) -> Tile {
    Tile::Transparent(Matrix { values, dimensions: Dimensions::new(width, height), wrapping: false })
}

#[test]
fn new_simple_is_filled_with_zeros() {
    match Tile::new_simple(3, 2) {
        Tile::Simple(m) => {
            assert_eq!(m.values, vec![0; 6]);
            assert_eq!((m.dimensions.width, m.dimensions.height), (3, 2));
            assert!(!m.wrapping);
        }
        Tile::Transparent(_) => panic!("a simple tile was asked for"),
    }
}

#[test]
fn new_transparent_holds_nothing() {
    match Tile::new_transparent(2, 2) {
        Tile::Transparent(m) => {
            assert_eq!(m.values, vec![None; 4]);
            assert_eq!((m.dimensions.width, m.dimensions.height), (2, 2));
            assert!(!m.wrapping);
        }
        Tile::Simple(_) => panic!("a transparent tile was asked for"),
    }
}

#[test]
fn to_simple_fills_the_gaps_with_zero() {
    let tile = transparent(2, 2, vec![Some(5), None, None, Some(8)]);
    match tile.to_simple() {
        Tile::Simple(m) => {
            assert_eq!(m.values, vec![5, 0, 0, 8]);
            assert_eq!((m.dimensions.width, m.dimensions.height), (2, 2));
            assert!(!m.wrapping);
        }
        Tile::Transparent(_) => panic!("to_simple gives a simple tile"),
    }
    match simple(2, 1, vec![3, 4]).to_simple() {
        Tile::Simple(m) => assert_eq!(m.values, vec![3, 4]),
        Tile::Transparent(_) => panic!("to_simple gives a simple tile"),
    }
}

#[test]
fn to_transparent_holds_every_value() {
    let tile = simple(2, 2, vec![5, 0, 7, 8]);
    match tile.to_transparent() {
        Tile::Transparent(m) => {
            assert_eq!(m.values, vec![Some(5), Some(0), Some(7), Some(8)]);
            assert_eq!((m.dimensions.width, m.dimensions.height), (2, 2));
        }
        Tile::Simple(_) => panic!("to_transparent gives a transparent tile"),
    }
    match transparent(1, 2, vec![None, Some(1)]).to_transparent() {
        Tile::Transparent(m) => assert_eq!(m.values, vec![None, Some(1)]),
        Tile::Simple(_) => panic!("to_transparent gives a transparent tile"),
    }
}

#[test]
fn clone_keeps_kind_and_image() {
    match simple(2, 1, vec![3, 4]).clone() {
        Tile::Simple(m) => assert_eq!(m.values, vec![3, 4]),
        Tile::Transparent(_) => panic!("the copy of a simple tile is simple"),
    }
    match transparent(1, 1, vec![None]).clone() {
        Tile::Transparent(m) => assert_eq!(m.values, vec![None]),
        Tile::Simple(_) => panic!("the copy of a transparent tile is transparent"),
    }
}

#[test]
fn library_numbers_tiles_in_the_order_added() {
    let mut library = TileLibrary::new();
    assert!(library.get(0).is_none());
    library.add(simple(1, 1, vec![11]));
    library.add(simple(1, 1, vec![22]));
    match library.get(0) {
        Some(Tile::Simple(m)) => assert_eq!(m.values, vec![11]),
        _ => panic!("the first tile is simple"),
    }
    match library.get(1) {
        Some(Tile::Simple(m)) => assert_eq!(m.values, vec![22]),
        _ => panic!("the second tile is simple"),
    }
    assert!(library.get(2).is_none());
}

#[test]
fn a_new_map_is_empty_with_a_buffer_of_zeros() {
    let map = TileMap::new(3, 2, true, 4, 5);
    assert_eq!(map.map.values, vec![None; 6]);
    assert_eq!((map.map.dimensions.width, map.map.dimensions.height), (3, 2));
    assert_eq!((map.buffer.dimensions.width, map.buffer.dimensions.height), (12, 10));
    assert_eq!(map.buffer.values, vec![0; 120]);
    assert!(map.map.wrapping);
    assert!(map.buffer.wrapping);
}

#[test]
fn update_buffer_stamps_each_named_tile_on_its_place() {
    let mut library = TileLibrary::new();
    library.add(simple(2, 2, vec![1, 2, 3, 4]));
    library.add(transparent(2, 2, vec![Some(9), None, None, Some(9)]));
    let mut map = TileMap::new(2, 2, false, 2, 2);
    map.buffer.values = vec![7; 16];
    map.map.values = vec![Some(0), Some(1), None, Some(5)];
    map.update_buffer(&library);
    assert_eq!(
        map.buffer.values,
        vec![
            1, 2, 9, 7, //
            3, 4, 7, 9, //
            7, 7, 7, 7, //
            7, 7, 7, 7,
        ]
    );
    let once = map.buffer.values.clone();
    map.update_buffer(&library);
    assert_eq!(map.buffer.values, once);
}

#[test]
fn update_buffer_lets_later_cells_cover_earlier_ones() {
    let mut library = TileLibrary::new();
    library.add(simple(3, 1, vec![1, 2, 3]));
    library.add(simple(1, 1, vec![8]));
    let mut map = TileMap::new(3, 1, false, 1, 1);
    map.map.values = vec![Some(0), Some(1), None];
    map.update_buffer(&library);
    assert_eq!(map.buffer.values, vec![1, 8, 3]);
}
