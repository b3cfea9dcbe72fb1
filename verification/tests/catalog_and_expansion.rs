use safari_tiles::archetype::{BushGroup, TileArchetype};
use safari_tiles::catalog::{load_catalog, parse_catalog, Catalog};
use safari_tiles::json::{parse_json, FatalParse, JsonValue};
use safari_tiles::terrain::{Animal, Land, Sides};
use safari_tiles::tile::{
    expand, expand_archetype, Bush, Expansion, TileInstance, TileName, Trail, VariationArityError,
};

const VALID: &str = "{\"trails\": [[\"N\", \"S\"]], \"bushes\": [{\"sides\": [\"E\"], \"birds\": 1}], \
                     \"baobab\": false, \"variations\": [[\"M\", \"Z\"], [\"L\", \"\"]]}";

fn codes(row: &[&str]) -> Vec<String> {
    row.iter().map(|code| code.to_string()).collect()
}

fn archetype(rows: Vec<Vec<String>>) -> TileArchetype {
    TileArchetype {
        trails: vec![vec![Sides::North, Sides::South], vec![Sides::West]],
        bushes: vec![BushGroup { sides: vec![Sides::East], birds: 3 }],
        baobab: true,
        variations: rows,
    }
}

fn tile(name: &str, face_up: bool, first: Animal, second: Animal, hidden: Animal) -> TileInstance {
    TileInstance {
        name: TileName(name.to_string()),
        face_up,
        baobab: true,
        trail_features: vec![
            Trail { sides: vec![Sides::North, Sides::South], animal: first },
            Trail { sides: vec![Sides::West], animal: second },
        ],
        bush_features: vec![Bush { sides: vec![Sides::East], animal: Some(hidden), birds: 3 }],
        edge_land: [Land::Trail, Land::Bush, Land::Trail, Land::Trail],
    }
}

#[test]
fn malformed_entry_is_left_out_of_the_catalog() {
    let text = format!(
        "{{\"tiles\": {{\"A\": {v}, \"B\": {v}, \"C\": {{\"bushes\": [], \"baobab\": true, \
         \"variations\": []}}, \"D\": {v}, \"E\": {v}, \"F\": {v}}}}}",
        v = VALID
    );
    let catalog = load_catalog(&text, "tiles").unwrap();
    assert_eq!(catalog.entries.len(), 5);
    let names: Vec<&str> = catalog.entries.iter().map(|entry| entry.0.as_str()).collect();
    assert_eq!(names, vec!["A", "B", "D", "E", "F"]);
    for entry in &catalog.entries {
        assert_eq!(entry.1.variations.len(), 2);
        assert_eq!(entry.1.trails, vec![vec![Sides::North, Sides::South]]);
    }
}

#[test]
fn catalog_of_a_missing_section_is_empty() {
    let root = parse_json("{\"tiles\": {}, \"other\": 3, \"list\": [1]}").unwrap();
    assert_eq!(parse_catalog(&root, "starting_tile"), Catalog { entries: vec![] });
    assert_eq!(parse_catalog(&root, "tiles"), Catalog { entries: vec![] });
    assert_eq!(parse_catalog(&root, "other"), Catalog { entries: vec![] });
    assert_eq!(parse_catalog(&root, "list"), Catalog { entries: vec![] });
    assert_eq!(parse_catalog(&JsonValue::Null, "tiles"), Catalog { entries: vec![] });
    assert_eq!(parse_catalog(&JsonValue::Array(vec![]), "tiles"), Catalog { entries: vec![] });
}

#[test]
fn catalog_text_that_is_not_json_is_fatal() {
    assert_eq!(load_catalog("{\"tiles\": ", "tiles"), Err(FatalParse));
    assert_eq!(load_catalog("tiles", "tiles"), Err(FatalParse));
}

#[test]
fn sections_are_read_apart() {
    let text = format!("{{\"tiles\": {{\"A\": {v}}}, \"starting_tile\": {{\"S\": {v}, \"T\": {v}}}}}", v = VALID);
    assert_eq!(load_catalog(&text, "tiles").unwrap().entries.len(), 1);
    assert_eq!(load_catalog(&text, "starting_tile").unwrap().entries.len(), 2);
    assert_eq!(load_catalog(&text, "Tiles").unwrap().entries.len(), 0);
}

#[test]
fn archetype_with_k_variations_gives_k_tiles_of_its_name() {
    let rows = vec![
        codes(&["M", "E", "G"]),
        codes(&["L", "Z", "M"]),
        codes(&["", "X", "E"]),
        codes(&["G", "G", "G"]),
    ];
    let tiles = expand_archetype(&"AB".to_string(), &archetype(rows), false).unwrap();
    assert_eq!(tiles.len(), 4);
    for made in &tiles {
        assert_eq!(made.name, TileName("AB".to_string()));
        assert_eq!(made.face_up, false);
    }
    assert_eq!(expand_archetype(&"AB".to_string(), &archetype(vec![]), false), Ok(vec![]));
}

#[test]
fn tile_takes_animals_by_position_and_marks_its_edges() {
    let rows = vec![codes(&["M", "E", "G"]), codes(&["L", "?", "Z"])];
    let tiles = expand_archetype(&"AB".to_string(), &archetype(rows), true).unwrap();
    assert_eq!(
        tiles,
        vec![
            tile("AB", true, Animal::Monkey, Animal::Elephant, Animal::Giraffe),
            tile("AB", true, Animal::Lion, Animal::NoAnimal, Animal::Zebra),
        ]
    );
}

#[test]
fn edges_match_the_claims_of_the_features() {
    let rows = vec![codes(&["M", "E", "G"])];
    let tiles = expand_archetype(&"AB".to_string(), &archetype(rows), false).unwrap();
    for made in &tiles {
        assert_eq!(made.edge_land.len(), 4);
        for trail in &made.trail_features {
            for side in &trail.sides {
                assert_eq!(made.edge_land[side.to_index()], Land::Trail);
            }
        }
        for bush in &made.bush_features {
            for side in &bush.sides {
                assert_eq!(made.edge_land[side.to_index()], Land::Bush);
            }
        }
    }
}

#[test]
fn unclaimed_edges_are_savanna() {
    let plain = TileArchetype {
        trails: vec![vec![Sides::East]],
        bushes: vec![],
        baobab: false,
        variations: vec![codes(&["Z"])],
    };
    let tiles = expand_archetype(&"P".to_string(), &plain, false).unwrap();
    assert_eq!(tiles[0].edge_land, [Land::Savanna, Land::Trail, Land::Savanna, Land::Savanna]);
    let bare = TileArchetype {
        trails: vec![],
        bushes: vec![],
        baobab: false,
        variations: vec![vec![]],
    };
    let tiles = expand_archetype(&"Q".to_string(), &bare, false).unwrap();
    assert_eq!(tiles[0].edge_land, [Land::Savanna; 4]);
    assert_eq!(tiles[0].trail_features, vec![]);
    assert_eq!(tiles[0].bush_features, vec![]);
}

#[test]
fn bush_wins_an_edge_that_a_trail_claims_too() {
    let both = TileArchetype {
        trails: vec![vec![Sides::North, Sides::East]],
        bushes: vec![BushGroup { sides: vec![Sides::East], birds: 0 }],
        baobab: false,
        variations: vec![codes(&["M", "L"])],
    };
    let tiles = expand_archetype(&"B".to_string(), &both, false).unwrap();
    assert_eq!(tiles[0].edge_land, [Land::Trail, Land::Bush, Land::Savanna, Land::Savanna]);
}

#[test]
fn short_row_fails_the_archetype_with_the_place_of_the_row() {
    let rows = vec![codes(&["M", "E", "G"]), codes(&["L", "Z"]), codes(&[])];
    assert_eq!(
        expand_archetype(&"AB".to_string(), &archetype(rows), false),
        Err(VariationArityError { name: "AB".to_string(), row: 1 })
    );
    let rows = vec![codes(&[])];
    assert_eq!(
        expand_archetype(&"AB".to_string(), &archetype(rows), false),
        Err(VariationArityError { name: "AB".to_string(), row: 0 })
    );
}

#[test]
fn codes_beyond_the_groups_are_passed_over() {
    let rows = vec![codes(&["M", "E", "G", "L", "Z"])];
    assert_eq!(
        expand_archetype(&"AB".to_string(), &archetype(rows), false),
        Ok(vec![tile("AB", false, Animal::Monkey, Animal::Elephant, Animal::Giraffe)])
    );
}

#[test]
fn expansion_goes_on_after_a_failed_archetype() {
    let catalog = Catalog {
        entries: vec![
            ("A".to_string(), archetype(vec![codes(&["M", "M", "M"])])),
            ("B".to_string(), archetype(vec![codes(&["M", "M", "M"]), codes(&["M"])])),
            ("C".to_string(), archetype(vec![codes(&["Z", "Z", "Z"]), codes(&["L", "L", "L"])])),
            ("D".to_string(), archetype(vec![codes(&[])])),
        ],
    };
    assert_eq!(
        expand(&catalog, false),
        Expansion {
            tiles: vec![
                tile("A", false, Animal::Monkey, Animal::Monkey, Animal::Monkey),
                tile("C", false, Animal::Zebra, Animal::Zebra, Animal::Zebra),
                tile("C", false, Animal::Lion, Animal::Lion, Animal::Lion),
            ],
            failures: vec![
                VariationArityError { name: "B".to_string(), row: 1 },
                VariationArityError { name: "D".to_string(), row: 0 },
            ],
        }
    );
    assert_eq!(
        expand(&Catalog { entries: vec![] }, true),
        Expansion { tiles: vec![], failures: vec![] }
    );
}
