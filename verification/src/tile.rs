//! Tile instances, and the expansion of archetypes into them: one tile for every
//! variation row of an archetype.

use crate::archetype::{ArchetypeModel, TileArchetype};
use crate::catalog::Catalog;
use crate::terrain::{spec_animal, Animal, Land, Sides};
use vstd::prelude::*;

verus! {

/// The name of the archetype that a tile was made from.
#[derive(Debug, PartialEq, Eq)]
pub struct TileName(pub String);

impl View for TileName {
    type V = Seq<char>;

    open spec fn view(&self) -> Seq<char> {
        self.0@
    }
}

/// A trail on a tile: the sides that it connects and the animal on it.
#[derive(Debug, PartialEq, Eq)]
pub struct Trail {
    pub sides: Vec<Sides>,
    pub animal: Animal,
}

/// The mathematical value of a `Trail`.
pub struct TrailModel {
    pub sides: Seq<Sides>,
    pub animal: Animal,
}

impl View for Trail {
    type V = TrailModel;

    open spec fn view(&self) -> TrailModel {
        TrailModel { sides: self.sides@, animal: self.animal }
    }
}

/// A bush on a tile: the sides that it covers, the animal in it and the number
/// of birds.
#[derive(Debug, PartialEq, Eq)]
pub struct Bush {
    pub sides: Vec<Sides>,
    pub animal: Option<Animal>,
    pub birds: u32,
}

/// The mathematical value of a `Bush`.
pub struct BushModel {
    pub sides: Seq<Sides>,
    pub animal: Option<Animal>,
    pub birds: u32,
}

impl View for Bush {
    type V = BushModel;

    open spec fn view(&self) -> BushModel {
        BushModel { sides: self.sides@, animal: self.animal, birds: self.birds }
    }
}

/// One concrete tile. `edge_land` gives the land on each edge, in the slot of
/// `Sides::to_index`.
#[derive(Debug, PartialEq, Eq)]
pub struct TileInstance {
    pub name: TileName,
    pub face_up: bool,
    pub baobab: bool,
    pub trail_features: Vec<Trail>,
    pub bush_features: Vec<Bush>,
    pub edge_land: [Land; 4],
}

/// The mathematical value of a `TileInstance`.
pub struct TileModel {
    pub name: Seq<char>,
    pub face_up: bool,
    pub baobab: bool,
    pub trail_features: Seq<TrailModel>,
    pub bush_features: Seq<BushModel>,
    pub edge_land: Seq<Land>,
}

impl View for TileInstance {
    type V = TileModel;

    open spec fn view(&self) -> TileModel {
        TileModel {
            name: self.name@,
            face_up: self.face_up,
            baobab: self.baobab,
            trail_features: self.trail_features@.map_values(|trail: Trail| trail@),
            bush_features: self.bush_features@.map_values(|bush: Bush| bush@),
            edge_land: self.edge_land@,
        }
    }
}

/// The values of a list of tiles.
pub open spec fn tiles_model(tiles: Seq<TileInstance>) -> Seq<TileModel> {
    tiles.map_values(|tile: TileInstance| tile@)
}

/// Whether one of `groups` holds `side`.
pub open spec fn claimed(groups: Seq<Seq<Sides>>, side: Sides) -> bool {
    exists|i: int| 0 <= i < groups.len() && (#[trigger] groups[i]).contains(side)
}

/// The land on the edge `side` of a tile with these trail and bush groups: bush
/// where a bush group holds the side, else trail where a trail group holds it,
/// else savanna.
pub open spec fn spec_land(trails: Seq<Seq<Sides>>, bushes: Seq<Seq<Sides>>, side: Sides) -> Land {
    if claimed(bushes, side) {
        Land::Bush
    } else if claimed(trails, side) {
        Land::Trail
    } else {
        Land::Savanna
    }
}

/// The land on the four edges, in the slots of `Sides::to_index`.
pub open spec fn spec_edge_land(trails: Seq<Seq<Sides>>, bushes: Seq<Seq<Sides>>) -> Seq<Land> {
    seq![
        spec_land(trails, bushes, Sides::North),
        spec_land(trails, bushes, Sides::East),
        spec_land(trails, bushes, Sides::South),
        spec_land(trails, bushes, Sides::West),
    ]
}

impl TileModel {
    /// The groups of sides of the trails, in their order.
    pub open spec fn trail_sides(self) -> Seq<Seq<Sides>> {
        self.trail_features.map_values(|trail: TrailModel| trail.sides)
    }

    /// The groups of sides of the bushes, in their order.
    pub open spec fn bush_sides(self) -> Seq<Seq<Sides>> {
        self.bush_features.map_values(|bush: BushModel| bush.sides)
    }

    /// The edges agree with the features: `edge_land` is the land that the
    /// trails and bushes of the tile give to each edge.
    pub open spec fn wf(self) -> bool {
        self.edge_land == spec_edge_land(self.trail_sides(), self.bush_sides())
    }
}

/// The trails of a tile made from `archetype` with the codes of `row`: trail `i`
/// has the sides of trail group `i` and the animal of code `i`.
pub open spec fn spec_trail_features(archetype: ArchetypeModel, row: Seq<Seq<char>>) -> Seq<
    TrailModel,
> {
    Seq::new(
        archetype.trails.len(),
        |i: int| TrailModel { sides: archetype.trails[i], animal: spec_animal(row[i]) },
    )
}

/// The bushes of a tile made from `archetype` with the codes of `row`: bush `j`
/// has the sides and birds of bush group `j` and the animal of the code `j`
/// places after the codes of the trails.
pub open spec fn spec_bush_features(archetype: ArchetypeModel, row: Seq<Seq<char>>) -> Seq<
    BushModel,
> {
    Seq::new(
        archetype.bushes.len(),
        |j: int|
            BushModel {
                sides: archetype.bushes[j].sides,
                animal: Some(spec_animal(row[archetype.trails.len() + j])),
                birds: archetype.bushes[j].birds,
            },
    )
}

/// The tile made from `archetype` with the codes of `row`.
pub open spec fn spec_tile(
    name: Seq<char>,
    archetype: ArchetypeModel,
    row: Seq<Seq<char>>,
    face_up: bool,
) -> TileModel {
    TileModel {
        name,
        face_up,
        baobab: archetype.baobab,
        trail_features: spec_trail_features(archetype, row),
        bush_features: spec_bush_features(archetype, row),
        edge_land: spec_edge_land(archetype.trails, archetype.bush_sides()),
    }
}

/// The tiles made from `archetype`: one for every row of `variations`, in their
/// order.
pub open spec fn spec_tiles(name: Seq<char>, archetype: ArchetypeModel, face_up: bool) -> Seq<
    TileModel,
> {
    Seq::new(
        archetype.variations.len(),
        |v: int| spec_tile(name, archetype, archetype.variations[v], face_up),
    )
}

impl ArchetypeModel {
    /// Whether row `v` of `variations` has a code for every trail and bush group.
    pub open spec fn row_fits(self, v: int) -> bool {
        self.variations[v].len() >= self.slots()
    }

    /// The first row from `v` on that is too short, or the number of rows where
    /// there is none.
    pub open spec fn first_short_row_from(self, v: int) -> int
        decreases self.variations.len() - v,
    {
        if v < 0 || v >= self.variations.len() {
            self.variations.len() as int
        } else if !self.row_fits(v) {
            v
        } else {
            self.first_short_row_from(v + 1)
        }
    }

    /// The first row that is too short, or the number of rows where every row
    /// fits.
    pub open spec fn first_short_row(self) -> int {
        self.first_short_row_from(0)
    }

    /// Whether every row of `variations` has a code for every trail and bush
    /// group.
    pub open spec fn all_rows_fit(self) -> bool {
        self.first_short_row() == self.variations.len()
    }
}

/// A variation row that has fewer animal codes than its archetype has trail and
/// bush groups: the name of the archetype and the place of its first such row.
#[derive(Debug, PartialEq, Eq)]
pub struct VariationArityError {
    pub name: String,
    pub row: usize,
}

/// The mathematical value of a `VariationArityError`.
pub struct ArityModel {
    pub name: Seq<char>,
    pub row: int,
}

impl View for VariationArityError {
    type V = ArityModel;

    open spec fn view(&self) -> ArityModel {
        ArityModel { name: self.name@, row: self.row as int }
    }
}

/// What the expansion of a catalog gives: the tiles of the archetypes whose rows
/// all fit, and one failure for each of the others.
#[derive(Debug, PartialEq, Eq)]
pub struct Expansion {
    pub tiles: Vec<TileInstance>,
    pub failures: Vec<VariationArityError>,
}

/// The mathematical value of an `Expansion`.
pub struct ExpansionModel {
    pub tiles: Seq<TileModel>,
    pub failures: Seq<ArityModel>,
}

impl View for Expansion {
    type V = ExpansionModel;

    open spec fn view(&self) -> ExpansionModel {
        ExpansionModel {
            tiles: tiles_model(self.tiles@),
            failures: self.failures@.map_values(|failure: VariationArityError| failure@),
        }
    }
}

/// The expansion of a catalog. An archetype whose rows all fit gives its tiles,
/// after the tiles of the archetypes before it. An archetype with a row that is
/// too short gives no tile and one failure, and the others are expanded as if it
/// were not there.
pub open spec fn spec_expand(catalog: Seq<(Seq<char>, ArchetypeModel)>, face_up: bool) -> ExpansionModel
    decreases catalog.len(),
{
    if catalog.len() == 0 {
        ExpansionModel { tiles: Seq::empty(), failures: Seq::empty() }
    } else {
        let before = spec_expand(catalog.drop_last(), face_up);
        let name = catalog.last().0;
        let archetype = catalog.last().1;
        if archetype.all_rows_fit() {
            ExpansionModel {
                tiles: before.tiles + spec_tiles(name, archetype, face_up),
                failures: before.failures,
            }
        } else {
            ExpansionModel {
                tiles: before.tiles,
                failures: before.failures.push(
                    ArityModel { name, row: archetype.first_short_row() },
                ),
            }
        }
    }
}

/// An archetype with `k` variation rows gives exactly `k` tiles, and each of
/// them has the name of the archetype.
pub proof fn lemma_one_tile_per_variation(name: Seq<char>, archetype: ArchetypeModel, face_up: bool)
    ensures
        spec_tiles(name, archetype, face_up).len() == archetype.variations.len(),
        forall|v: int|
            0 <= v < archetype.variations.len() ==> (#[trigger] spec_tiles(
                name,
                archetype,
                face_up,
            )[v]).name == name,
{
}

/// The edges of a tile made from an archetype agree with its features.
pub proof fn lemma_made_tile_is_wf(
    name: Seq<char>,
    archetype: ArchetypeModel,
    row: Seq<Seq<char>>,
    face_up: bool,
)
    ensures
        spec_tile(name, archetype, row, face_up).wf(),
{
    let tile = spec_tile(name, archetype, row, face_up);
    assert(tile.trail_sides() =~= archetype.trails);
    assert(tile.bush_sides() =~= archetype.bush_sides());
}

/// Every tile of an expansion has edges that agree with its features.
pub proof fn lemma_expanded_tiles_are_wf(
    catalog: Seq<(Seq<char>, ArchetypeModel)>,
    face_up: bool,
    k: int,
)
    requires
        0 <= k < spec_expand(catalog, face_up).tiles.len(),
    ensures
        spec_expand(catalog, face_up).tiles[k].wf(),
    decreases catalog.len(),
{
    let before = spec_expand(catalog.drop_last(), face_up);
    if k < before.tiles.len() {
        lemma_expanded_tiles_are_wf(catalog.drop_last(), face_up, k);
    } else {
        let name = catalog.last().0;
        let archetype = catalog.last().1;
        lemma_made_tile_is_wf(
            name,
            archetype,
            archetype.variations[k - before.tiles.len()],
            face_up,
        );
    }
}

/// On a tile whose edges agree with its features, the edge array has four
/// entries, and the entry in the slot of a side is bush where a bush holds the
/// side, trail where a trail and no bush holds it, and savanna where neither
/// does.
pub proof fn lemma_edges_match_claims(tile: TileModel, side: Sides)
    requires
        tile.wf(),
    ensures
        tile.edge_land.len() == 4,
        claimed(tile.bush_sides(), side) ==> tile.edge_land[side.spec_to_index()] == Land::Bush,
        claimed(tile.trail_sides(), side) && !claimed(tile.bush_sides(), side)
            ==> tile.edge_land[side.spec_to_index()] == Land::Trail,
        !claimed(tile.trail_sides(), side) && !claimed(tile.bush_sides(), side)
            ==> tile.edge_land[side.spec_to_index()] == Land::Savanna,
{
}

/// A side is in the first `k + 1` of a group exactly when it is in the first `k`
/// or is the side at `k`.
proof fn lemma_take_contains(group: Seq<Sides>, k: int, side: Sides)
    requires
        0 <= k < group.len(),
    ensures
        group.take(k + 1).contains(side) <==> group.take(k).contains(side) || group[k] == side,
{
    let more = group.take(k + 1);
    let less = group.take(k);
    if more.contains(side) {
        let i = choose|i: int| 0 <= i < more.len() && more[i] == side;
        if i < k {
            assert(less[i] == side);
        }
    }
    if less.contains(side) {
        let i = choose|i: int| 0 <= i < less.len() && less[i] == side;
        assert(more[i] == side);
    }
    if group[k] == side {
        assert(more[k] == side);
    }
}

/// A side is claimed by the first `i + 1` groups exactly when it is claimed by
/// the first `i` or held by group `i`.
proof fn lemma_take_claimed(groups: Seq<Seq<Sides>>, i: int, side: Sides)
    requires
        0 <= i < groups.len(),
    ensures
        claimed(groups.take(i + 1), side) <==> claimed(groups.take(i), side) || groups[i].contains(
            side,
        ),
{
    let more = groups.take(i + 1);
    let less = groups.take(i);
    if claimed(more, side) {
        let g = choose|g: int| 0 <= g < more.len() && (#[trigger] more[g]).contains(side);
        if g < i {
            assert(less[g].contains(side));
        }
    }
    if claimed(less, side) {
        let g = choose|g: int| 0 <= g < less.len() && (#[trigger] less[g]).contains(side);
        assert(more[g].contains(side));
    }
    if groups[i].contains(side) {
        assert(more[i].contains(side));
    }
}

/// Marks every edge of `group` as `land` and leaves the other edges as they are.
fn paint(lands: &mut [Land; 4], group: &Vec<Sides>, land: Land)
    ensures
        forall|side: Sides| #[trigger]
            final(lands)@[side.spec_to_index()] == (if group@.contains(side) {
                land
            } else {
                old(lands)@[side.spec_to_index()]
            }),
{
    let mut k: usize = 0;
    while k < group.len()
        invariant
            k <= group.len(),
            forall|side: Sides| #[trigger]
                lands@[side.spec_to_index()] == (if group@.take(k as int).contains(side) {
                    land
                } else {
                    old(lands)@[side.spec_to_index()]
                }),
        decreases group.len() - k,
    {
        let ghost before = lands@;
        let slot: usize = group[k].to_index();
        lands[slot] = land;
        assert forall|side: Sides| #[trigger]
            lands@[side.spec_to_index()] == (if group@.take(k + 1).contains(side) {
                land
            } else {
                old(lands)@[side.spec_to_index()]
            }) by {
            lemma_take_contains(group@, k as int, side);
            assert(before[side.spec_to_index()] == (if group@.take(k as int).contains(side) {
                land
            } else {
                old(lands)@[side.spec_to_index()]
            }));
        }
        k += 1;
    }
    assert(group@.take(k as int) =~= group@);
}

/// A copy of a group of sides.
fn copy_sides(group: &Vec<Sides>) -> (copy: Vec<Sides>)
    ensures
        copy@ == group@,
{
    let mut copy: Vec<Sides> = Vec::new();
    let mut k: usize = 0;
    while k < group.len()
        invariant
            k <= group.len(),
            copy@ =~= group@.take(k as int),
        decreases group.len() - k,
    {
        copy.push(group[k]);
        k += 1;
    }
    assert(group@.take(k as int) =~= group@);
    copy
}

/// Makes the tile of one variation row: walks the trail groups and then the
/// bush groups, marks the edges of each group, and gives each group the animal
/// of its code in `row`.
#[verifier::loop_isolation(false)]
fn make_tile(name: &String, archetype: &TileArchetype, row: &Vec<String>, face_up: bool) -> (tile:
    TileInstance)
    requires
        row@.len() >= archetype@.slots(),
    ensures
        tile@ == spec_tile(name@, archetype@, row@.map_values(|code: String| code@), face_up),
{
    let ghost model = archetype@;
    let ghost codes = row@.map_values(|code: String| code@);
    let mut lands: [Land; 4] = [Land::Savanna; 4];
    let mut trail_features: Vec<Trail> = Vec::new();
    let mut i: usize = 0;
    while i < archetype.trails.len()
        invariant
            i <= archetype.trails.len(),
            trail_features@.len() == i,
            forall|t: int|
                0 <= t < i ==> (#[trigger] trail_features@[t])@ == spec_trail_features(
                    model,
                    codes,
                )[t],
            forall|side: Sides| #[trigger]
                lands@[side.spec_to_index()] == (if claimed(model.trails.take(i as int), side) {
                    Land::Trail
                } else {
                    Land::Savanna
                }),
        decreases archetype.trails.len() - i,
    {
        let sides = copy_sides(&archetype.trails[i]);
        paint(&mut lands, &archetype.trails[i], Land::Trail);
        proof {
            assert forall|side: Sides| #[trigger]
                lands@[side.spec_to_index()] == (if claimed(model.trails.take(i + 1), side) {
                    Land::Trail
                } else {
                    Land::Savanna
                }) by {
                lemma_take_claimed(model.trails, i as int, side);
            }
        }
        trail_features.push(Trail { sides, animal: Animal::from_string(row[i].clone()) });
        i += 1;
    }
    assert(model.trails.take(i as int) =~= model.trails);
    let mut bush_features: Vec<Bush> = Vec::new();
    let mut j: usize = 0;
    while j < archetype.bushes.len()
        invariant
            i == archetype.trails.len(),
            j <= archetype.bushes.len(),
            bush_features@.len() == j,
            forall|b: int|
                0 <= b < j ==> (#[trigger] bush_features@[b])@ == spec_bush_features(model, codes)[b],
            forall|side: Sides| #[trigger]
                lands@[side.spec_to_index()] == spec_land(
                    model.trails,
                    model.bush_sides().take(j as int),
                    side,
                ),
        decreases archetype.bushes.len() - j,
    {
        let sides = copy_sides(&archetype.bushes[j].sides);
        paint(&mut lands, &archetype.bushes[j].sides, Land::Bush);
        proof {
            assert forall|side: Sides| #[trigger]
                lands@[side.spec_to_index()] == spec_land(
                    model.trails,
                    model.bush_sides().take(j + 1),
                    side,
                ) by {
                lemma_take_claimed(model.bush_sides(), j as int, side);
            }
        }
        assert(i + j < model.slots() <= row.len());
        let animal = Some(Animal::from_string(row[i + j].clone()));
        bush_features.push(Bush { sides, animal, birds: archetype.bushes[j].birds });
        j += 1;
    }
    assert(model.bush_sides().take(j as int) =~= model.bush_sides());
    let tile = TileInstance {
        name: TileName(name.clone()),
        face_up,
        baobab: archetype.baobab,
        trail_features,
        bush_features,
        edge_land: lands,
    };
    proof {
        let want = spec_tile(name@, model, codes, face_up);
        assert(tile@.trail_features =~= want.trail_features);
        assert(tile@.bush_features =~= want.bush_features);
        assert(lands@[Sides::North.spec_to_index()] == want.edge_land[0]);
        assert(lands@[Sides::East.spec_to_index()] == want.edge_land[1]);
        assert(lands@[Sides::South.spec_to_index()] == want.edge_land[2]);
        assert(lands@[Sides::West.spec_to_index()] == want.edge_land[3]);
        assert(tile@.edge_land =~= want.edge_land);
    }
    tile
}

/// Expands one archetype into its tiles: one tile for every variation row, in
/// the order of the rows, each with the name `name`.
///
/// A row that has fewer codes than the archetype has trail and bush groups fails
/// the whole archetype: the result is then the error with the place of the
/// first such row, and no tile. Codes beyond those that the groups need are
/// passed over.
#[verifier::loop_isolation(false)]
pub fn expand_archetype(name: &String, archetype: &TileArchetype, face_up: bool) -> (r: Result<
    Vec<TileInstance>,
    VariationArityError,
>)
    ensures
        match r {
            Ok(tiles) => {
                &&& archetype@.all_rows_fit()
                &&& tiles_model(tiles@) == spec_tiles(name@, archetype@, face_up)
                &&& tiles@.len() == archetype.variations@.len()
                &&& forall|v: int|
                    0 <= v < tiles@.len() ==> (#[trigger] tiles@[v])@.name == name@
                        && tiles@[v]@.wf()
            },
            Err(error) => {
                &&& !archetype@.all_rows_fit()
                &&& error@ == ArityModel { name: name@, row: archetype@.first_short_row() }
            },
        },
{
    let ghost model = archetype@;
    let mut tiles: Vec<TileInstance> = Vec::new();
    let mut v: usize = 0;
    while v < archetype.variations.len()
        invariant
            v <= archetype.variations.len(),
            model.first_short_row() == model.first_short_row_from(v as int),
            tiles@.len() == v,
            forall|u: int|
                0 <= u < v ==> (#[trigger] tiles@[u])@ == spec_tiles(name@, model, face_up)[u],
        decreases archetype.variations.len() - v,
    {
        let row = &archetype.variations[v];
        if row.len() < archetype.trails.len() || row.len() - archetype.trails.len()
            < archetype.bushes.len() {
            assert(!model.row_fits(v as int));
            return Err(VariationArityError { name: name.clone(), row: v });
        }
        assert(model.row_fits(v as int));
        let tile = make_tile(name, archetype, row, face_up);
        tiles.push(tile);
        v += 1;
    }
    assert(tiles_model(tiles@) =~= spec_tiles(name@, model, face_up));
    assert forall|u: int| 0 <= u < tiles@.len() implies (#[trigger] tiles@[u])@.wf() by {
        lemma_made_tile_is_wf(name@, model, model.variations[u], face_up);
    }
    Ok(tiles)
}

/// Expands every archetype of a catalog, in the order of its entries.
///
/// An archetype with a variation row that is too short is not expanded: it
/// gives no tile and is reported in `failures`, with its name and the place of
/// the row; the other archetypes are expanded all the same.
pub fn expand(catalog: &Catalog, face_up: bool) -> (expansion: Expansion)
    ensures
        expansion@ == spec_expand(catalog@, face_up),
{
    let mut tiles: Vec<TileInstance> = Vec::new();
    let mut failures: Vec<VariationArityError> = Vec::new();
    let mut i: usize = 0;
    assert(catalog@.take(0) =~= Seq::empty());
    while i < catalog.entries.len()
        invariant
            i <= catalog.entries.len(),
            tiles_model(tiles@) =~= spec_expand(catalog@.take(i as int), face_up).tiles,
            failures@.map_values(|failure: VariationArityError| failure@) =~= spec_expand(
                catalog@.take(i as int),
                face_up,
            ).failures,
        decreases catalog.entries.len() - i,
    {
        assert(catalog@.take(i + 1).drop_last() =~= catalog@.take(i as int));
        assert(catalog@.take(i + 1).last() == catalog@[i as int]);
        match expand_archetype(&catalog.entries[i].0, &catalog.entries[i].1, face_up) {
            Ok(mut made) => {
                let ghost before = tiles@;
                let ghost added = made@;
                tiles.append(&mut made);
                assert(tiles_model(tiles@) =~= tiles_model(before) + tiles_model(added));
            },
            Err(failure) => {
                failures.push(failure);
            },
        }
        i += 1;
    }
    assert(catalog@.take(i as int) =~= catalog@);
    Expansion { tiles, failures }
}

} // verus!
