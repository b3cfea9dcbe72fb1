use safari_tiles::json::parse_json;
use safari_tiles::placement::{assemble, place_starting, PlacementError, StartingLayout};
use safari_tiles::setup::{spawn_all_tiles, spawn_starting_tiles};
use safari_tiles::terrain::{Animal, Land, Sides};
use safari_tiles::tile::{TileInstance, TileName, VariationArityError};

fn named(name: &str) -> TileInstance {
    TileInstance {
        name: TileName(name.to_string()),
        face_up: true,
        baobab: false,
        trail_features: vec![],
        bush_features: vec![],
        edge_land: [Land::Savanna; 4],
    }
}

fn entry(name: &str, rows: &str) -> String {
    format!(
        "\"{}\": {{\"trails\": [[\"N\", \"S\"]], \"bushes\": [], \"baobab\": true, \
         \"variations\": {}}}",
        name, rows
    )
}

#[test]
fn three_starting_tiles_and_two_deck_tiles_make_a_board_of_five() {
    let board = assemble(&vec![(-1, 0), (0, 0), (1, 0)], 2).unwrap();
    assert_eq!(board.size(), 5);
    assert_eq!(board.get(2, 1), Some(0));
    assert_eq!(board.get(2, 2), Some(1));
    assert_eq!(board.get(2, 3), Some(2));
    let mut placed = 0;
    for row in 0..5 {
        for col in 0..5 {
            if board.get(row, col).is_some() {
                placed += 1;
            }
        }
    }
    assert_eq!(placed, 3);
}

#[test]
fn board_cells_off_the_board_are_empty() {
    let board = assemble(&vec![(0, 0)], 0).unwrap();
    assert_eq!(board.size(), 1);
    assert_eq!(board.get(0, 0), Some(0));
    assert_eq!(board.get(0, 1), None);
    assert_eq!(board.get(1, 0), None);
    assert_eq!(board.get(usize::MAX, usize::MAX), None);
}

#[test]
fn board_without_starting_tiles_is_empty() {
    let board = assemble(&vec![], 3).unwrap();
    assert_eq!(board.size(), 3);
    for row in 0..3 {
        for col in 0..3 {
            assert_eq!(board.get(row, col), None);
        }
    }
    assert_eq!(assemble(&vec![], 0).unwrap().size(), 0);
}

#[test]
fn two_tiles_on_one_cell_are_a_collision() {
    assert_eq!(
        assemble(&vec![(-1, 0), (0, 0), (-1, 0), (0, 0)], 4),
        Err(PlacementError::PlacementCollision { first: 0, second: 2 })
    );
    assert_eq!(
        assemble(&vec![(0, 0), (5, 5), (1, -1), (100, 100)], 1),
        Err(PlacementError::PlacementCollision { first: 1, second: 3 })
    );
}

#[test]
fn clamping_can_make_distinct_coordinates_collide() {
    assert_eq!(assemble(&vec![(-1, 0), (0, 0), (1, 0)], 0).unwrap().size(), 3);
    assert_eq!(
        assemble(&vec![(0, 0), (1, 0)], 0),
        Err(PlacementError::PlacementCollision { first: 0, second: 1 })
    );
    assert_eq!(
        assemble(&vec![(0, -1), (0, -2)], 2),
        Err(PlacementError::PlacementCollision { first: 0, second: 1 })
    );
}

#[test]
fn board_that_cannot_be_counted_is_too_large() {
    assert_eq!(assemble(&vec![(0, 0)], usize::MAX), Err(PlacementError::BoardTooLarge));
    assert_eq!(
        assemble(&vec![(0, 0), (0, 0)], usize::MAX - 1),
        Err(PlacementError::BoardTooLarge)
    );
}

#[test]
fn canonical_layout_places_the_three_starting_tiles() {
    let layout = StartingLayout::canonical();
    assert_eq!(layout.coord_of(&"CSS1".to_string()), (-1, 0));
    assert_eq!(layout.coord_of(&"CSS2".to_string()), (0, 0));
    assert_eq!(layout.coord_of(&"CSS3".to_string()), (1, 0));
    assert_eq!(layout.coord_of(&"".to_string()), (1, 0));
    assert_eq!(layout.coord_of(&"css1".to_string()), (1, 0));
}

#[test]
fn layout_gives_the_first_place_of_a_name() {
    let layout = StartingLayout {
        places: vec![
            ("A".to_string(), (2, 3)),
            ("B".to_string(), (-4, 5)),
            ("A".to_string(), (9, 9)),
        ],
        fallback: (7, -7),
    };
    assert_eq!(layout.coord_of(&"A".to_string()), (2, 3));
    assert_eq!(layout.coord_of(&"B".to_string()), (-4, 5));
    assert_eq!(layout.coord_of(&"C".to_string()), (7, -7));
}

#[test]
fn starting_tiles_go_where_the_layout_says() {
    let tiles = vec![named("CSS2"), named("CSS3"), named("CSS1")];
    let board = place_starting(&tiles, &StartingLayout::canonical(), 2).unwrap();
    assert_eq!(board.size(), 5);
    assert_eq!(board.get(2, 1), Some(2));
    assert_eq!(board.get(2, 2), Some(0));
    assert_eq!(board.get(2, 3), Some(1));
    let twice = vec![named("CSS1"), named("CSS2"), named("CSS1")];
    assert_eq!(
        place_starting(&twice, &StartingLayout::canonical(), 2),
        Err(PlacementError::PlacementCollision { first: 0, second: 2 })
    );
}

#[test]
fn deck_holds_the_tiles_of_the_tiles_section_face_down() {
    let text = format!(
        "{{\"tiles\": {{{}, {}, {}}}, \"starting_tile\": {{{}}}}}",
        entry("A", "[[\"M\"], [\"Z\"]]"),
        entry("B", "[[]]"),
        entry("C", "[[\"L\", \"E\"]]"),
        entry("CSS1", "[[\"G\"]]"),
    );
    let root = parse_json(&text).unwrap();
    let (deck, failures) = spawn_all_tiles(&root);
    assert_eq!(deck.len(), 3);
    let seen: Vec<(&str, Animal)> = deck
        .tiles
        .iter()
        .map(|tile| (tile.name.0.as_str(), tile.trail_features[0].animal))
        .collect();
    assert_eq!(seen, vec![("A", Animal::Monkey), ("A", Animal::Zebra), ("C", Animal::Lion)]);
    for tile in &deck.tiles {
        assert_eq!(tile.face_up, false);
        assert_eq!(tile.baobab, true);
        assert_eq!(tile.trail_features[0].sides, vec![Sides::North, Sides::South]);
        assert_eq!(tile.edge_land, [Land::Trail, Land::Savanna, Land::Trail, Land::Savanna]);
    }
    assert_eq!(failures, vec![VariationArityError { name: "B".to_string(), row: 0 }]);
}

#[test]
fn starting_tiles_are_made_face_up_and_placed() {
    let text = format!(
        "{{\"tiles\": {{{}}}, \"starting_tile\": {{{}, {}, {}, {}}}}}",
        entry("A", "[[\"M\"], [\"Z\"]]"),
        entry("CSS1", "[[\"G\"]]"),
        entry("CSS2", "[[\"L\"]]"),
        entry("CSS3", "[[\"E\"]]"),
        entry("CSS4", "[[]]"),
    );
    let root = parse_json(&text).unwrap();
    let deck_size = spawn_all_tiles(&root).0.len();
    assert_eq!(deck_size, 2);
    let start = spawn_starting_tiles(&root, deck_size).unwrap();
    assert_eq!(start.tiles.len(), 3);
    assert_eq!(start.failures, vec![VariationArityError { name: "CSS4".to_string(), row: 0 }]);
    assert_eq!(start.board.size(), 5);
    for (number, tile) in start.tiles.iter().enumerate() {
        assert_eq!(tile.face_up, true);
        let column = match tile.name.0.as_str() {
            "CSS1" => 1,
            "CSS2" => 2,
            _ => 3,
        };
        assert_eq!(start.board.get(2, column), Some(number));
    }
}

#[test]
fn starting_archetype_with_two_variations_collides_with_itself() {
    let text = format!("{{\"starting_tile\": {{{}}}}}", entry("CSS1", "[[\"G\"], [\"L\"]]"));
    let root = parse_json(&text).unwrap();
    assert_eq!(
        spawn_starting_tiles(&root, 10),
        Err(PlacementError::PlacementCollision { first: 0, second: 1 })
    );
    assert_eq!(spawn_starting_tiles(&root, usize::MAX), Err(PlacementError::BoardTooLarge));
}

#[test]
fn catalog_without_starting_tiles_gives_an_empty_board() {
    let root = parse_json("{}").unwrap();
    let start = spawn_starting_tiles(&root, 4).unwrap();
    assert_eq!(start.tiles, vec![]);
    assert_eq!(start.failures, vec![]);
    assert_eq!(start.board.size(), 4);
    let (deck, failures) = spawn_all_tiles(&root);
    assert_eq!(deck.len(), 0);
    assert_eq!(failures, vec![]);
}
