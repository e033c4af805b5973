use vstd::prelude::*;
use rand::Rng;
use crate::render::{grid_text, render_grid};
use crate::traits;

verus! {

/// What one cell of the world holds: a creature, a piece of food, or nothing.
pub enum CellContent<Creature, Food> {
    Creature(Creature),
    Food(Food),
    Empty,
}

/// The world grid: a sequence of rows, each a sequence of cells.
/// A cell is addressed as `map[row][col]`.
pub type Grid<T, U> = Vec<Vec<CellContent<T, U>>>;

/// Why a placement could not be made.
#[derive(PartialEq, Eq, Structural, Debug, Clone, Copy)]
pub enum PlacementError {
    /// More creatures and food were asked for than the grid has cells.
    CapacityExceeded,
}

/// `(row, col)` addresses a cell of `m`.
pub open spec fn in_bounds<C, F>(m: Seq<Vec<CellContent<C, F>>>, row: int, col: int) -> bool {
    0 <= row < m.len() && 0 <= col < m[row]@.len()
}

/// Every row of `m` has `width` cells and there are `height` rows.
pub open spec fn has_shape<C, F>(m: Seq<Vec<CellContent<C, F>>>, width: int, height: int) -> bool {
    &&& m.len() == height
    &&& forall|r: int| 0 <= r < m.len() ==> #[trigger] m[r]@.len() == width
}

/// The number of cells in a row of `m` (zero for a grid without rows).
pub open spec fn width_of<C, F>(m: Seq<Vec<CellContent<C, F>>>) -> int {
    if m.len() == 0 {
        0
    } else {
        m[0]@.len() as int
    }
}

/// All rows of `m` are as long as the first.
pub open spec fn is_rectangular<C, F>(m: Seq<Vec<CellContent<C, F>>>) -> bool {
    has_shape(m, width_of(m), m.len() as int)
}

/// No cell of `m` holds anything.
pub open spec fn all_empty<C, F>(m: Seq<Vec<CellContent<C, F>>>) -> bool {
    forall|r: int, c: int| in_bounds(m, r, c) ==> (#[trigger] m[r]@[c]) is Empty
}

/// The coordinates of the cells of `m` that hold a creature.
pub open spec fn creature_cells<C, F>(m: Seq<Vec<CellContent<C, F>>>) -> Set<(int, int)> {
    Set::new(|p: (int, int)| in_bounds(m, p.0, p.1) && m[p.0]@[p.1] is Creature)
}

/// The coordinates of the cells of `m` that hold food.
pub open spec fn food_cells<C, F>(m: Seq<Vec<CellContent<C, F>>>) -> Set<(int, int)> {
    Set::new(|p: (int, int)| in_bounds(m, p.0, p.1) && m[p.0]@[p.1] is Food)
}

/// The coordinates of the cells of `m` that hold something.
pub open spec fn occupied_cells<C, F>(m: Seq<Vec<CellContent<C, F>>>) -> Set<(int, int)> {
    Set::new(|p: (int, int)| in_bounds(m, p.0, p.1) && !(m[p.0]@[p.1] is Empty))
}

/// `m` holds exactly `creatures` creatures and `food` pieces of food, each on
/// a cell of its own.
pub open spec fn holds_counts<C, F>(m: Seq<Vec<CellContent<C, F>>>, creatures: int, food: int) -> bool {
    &&& creature_cells(m).finite()
    &&& creature_cells(m).len() == creatures
    &&& food_cells(m).finite()
    &&& food_cells(m).len() == food
}

/// `later` is `earlier` with the one cell `(row, col)` replaced by `v`.
pub open spec fn one_cell_changed<C, F>(
    earlier: Seq<Vec<CellContent<C, F>>>,
    later: Seq<Vec<CellContent<C, F>>>,
    row: int,
    col: int,
    v: CellContent<C, F>,
) -> bool {
    &&& later.len() == earlier.len()
    &&& forall|r: int| 0 <= r < earlier.len() && r != row ==> #[trigger] later[r] == earlier[r]
    &&& later[row]@ == earlier[row]@.update(col, v)
}

/// Relies on rand's `Rng::gen_range` over the thread-local generator: for a
/// non-empty range `0..n` it returns a value of that range.
#[verifier::external_body]
fn random_below(n: usize) -> (r: usize)
    requires
        n > 0,
    ensures
        r < n,
{
    rand::thread_rng().gen_range(0..n)
}

/// Puts `v` into the cell `(row, col)`.
fn set_cell<C, F>(m: &mut Grid<C, F>, row: usize, col: usize, v: CellContent<C, F>)
    requires
        in_bounds(old(m)@, row as int, col as int),
    ensures
        one_cell_changed(old(m)@, final(m)@, row as int, col as int, v),
{
    let mut cells: Vec<CellContent<C, F>> = Vec::new();
    std::mem::swap(&mut cells, &mut m[row]);
    cells.set(col, v);
    m.set(row, cells);
}

/// `a` comes before `b` when positions are read row by row.
spec fn precedes(a: (usize, usize), b: (usize, usize)) -> bool {
    a.0 < b.0 || (a.0 == b.0 && a.1 < b.1)
}

/// The positions still free for placement: each names an empty cell of `m`,
/// and no position is listed twice.
spec fn pool_is_free<C, F>(m: Seq<Vec<CellContent<C, F>>>, pool: Seq<(usize, usize)>) -> bool {
    &&& forall|i: int|
        0 <= i < pool.len() ==> in_bounds(m, #[trigger] pool[i].0 as int, pool[i].1 as int)
            && m[pool[i].0 as int]@[pool[i].1 as int] is Empty
    &&& forall|i: int, j: int| 0 <= i < j < pool.len() ==> #[trigger] pool[i] != #[trigger] pool[j]
}

/// The positions of all cells of a grid of `height` rows of `width` cells.
fn all_positions(width: usize, height: usize) -> (pool: Vec<(usize, usize)>)
    ensures
        pool@.len() == width * height,
        forall|i: int|
            0 <= i < pool@.len() ==> (#[trigger] pool@[i]).0 < height && pool@[i].1 < width,
        forall|i: int, j: int| 0 <= i < j < pool@.len() ==> #[trigger] pool@[i] != #[trigger] pool@[j],
{
    let mut pool: Vec<(usize, usize)> = Vec::new();
    let mut r: usize = 0;
    while r < height
        invariant
            r <= height,
            pool@.len() == r * width,
            forall|i: int| 0 <= i < pool@.len() ==> (#[trigger] pool@[i]).0 < r && pool@[i].1 < width,
            forall|i: int, j: int| 0 <= i < j < pool@.len() ==> precedes(#[trigger] pool@[i], #[trigger] pool@[j]),
        decreases height - r,
    {
        let mut c: usize = 0;
        while c < width
            invariant
                r < height,
                c <= width,
                pool@.len() == r * width + c,
                forall|i: int|
                    0 <= i < pool@.len() ==> precedes(#[trigger] pool@[i], (r, c)) && pool@[i].1 < width,
                forall|i: int, j: int| 0 <= i < j < pool@.len() ==> precedes(#[trigger] pool@[i], #[trigger] pool@[j]),
            decreases width - c,
        {
            pool.push((r, c));
            c = c + 1;
        }
        assert((r + 1) * width == r * width + width) by (nonlinear_arith);
        r = r + 1;
    }
    pool
}

/// Changing the empty cell `(row, col)` of `earlier` to `v` adds that cell to
/// the set of creature cells or of food cells that `v` belongs to, and leaves
/// the other set as it was.
proof fn lemma_fill_cell<C, F>(
    earlier: Seq<Vec<CellContent<C, F>>>,
    later: Seq<Vec<CellContent<C, F>>>,
    row: int,
    col: int,
    v: CellContent<C, F>,
)
    requires
        in_bounds(earlier, row, col),
        earlier[row]@[col] is Empty,
        one_cell_changed(earlier, later, row, col, v),
    ensures
        !creature_cells(earlier).contains((row, col)),
        !food_cells(earlier).contains((row, col)),
        creature_cells(later) == (if v is Creature {
            creature_cells(earlier).insert((row, col))
        } else {
            creature_cells(earlier)
        }),
        food_cells(later) == (if v is Food {
            food_cells(earlier).insert((row, col))
        } else {
            food_cells(earlier)
        }),
{
    assert(creature_cells(later) =~= (if v is Creature {
        creature_cells(earlier).insert((row, col))
    } else {
        creature_cells(earlier)
    }));
    assert(food_cells(later) =~= (if v is Food {
        food_cells(earlier).insert((row, col))
    } else {
        food_cells(earlier)
    }));
}

/// Takes a position out of `pool` at random and puts `v` into that cell.
/// Returns the position filled.
fn fill_random_cell<C, F>(
    m: &mut Grid<C, F>,
    pool: &mut Vec<(usize, usize)>,
    v: CellContent<C, F>,
) -> (pos: (usize, usize))
    requires
        old(pool)@.len() > 0,
        pool_is_free(old(m)@, old(pool)@),
    ensures
        in_bounds(old(m)@, pos.0 as int, pos.1 as int),
        old(m)@[pos.0 as int]@[pos.1 as int] is Empty,
        one_cell_changed(old(m)@, final(m)@, pos.0 as int, pos.1 as int, v),
        final(pool)@.len() == old(pool)@.len() - 1,
        pool_is_free(final(m)@, final(pool)@),
{
    let i = random_below(pool.len());
    let pos = pool.swap_remove(i);
    proof {
        assert(pos == old(pool)@[i as int]);
    }
    set_cell(m, pos.0, pos.1, v);
    proof {
        let p0 = old(pool)@;
        let p1 = pool@;
        let last = p0.len() - 1;
        assert forall|k: int| 0 <= k < p1.len() implies #[trigger] p1[k] == p0[if k == i { last } else { k }] by {}
        assert forall|k: int| 0 <= k < p1.len() implies in_bounds(m@, #[trigger] p1[k].0 as int, p1[k].1 as int)
            && m@[p1[k].0 as int]@[p1[k].1 as int] is Empty by {
            let j = if k == i { last } else { k };
            assert(p1[k] == p0[j]);
            assert(p0[j] != p0[i as int]);
            if p1[k].0 != pos.0 {
                assert(m@[p1[k].0 as int] == old(m)@[p1[k].0 as int]);
            }
        }
        assert forall|a: int, b: int| 0 <= a < b < p1.len() implies #[trigger] p1[a] != #[trigger] p1[b] by {
            let ja = if a == i { last } else { a };
            let jb = if b == i { last } else { b };
            assert(p1[a] == p0[ja]);
            assert(p1[b] == p0[jb]);
            if ja < jb {
                assert(p0[ja] != p0[jb]);
            } else {
                assert(p0[jb] != p0[ja]);
            }
        }
    }
    pos
}

/// Places `*creatures` default creatures and then `*food` default pieces of
/// food on distinct cells of the empty grid `game_map`, each drawn at random
/// from the cells still free.
///
/// Fails, leaving the grid as it was, when more were asked for than the grid
/// has cells. On success the grid keeps its shape, holds exactly that many
/// creatures and pieces of food, and every other cell stays empty.
pub fn place_creatures_and_food_randomly<C: traits::Creature, F: traits::Food>(
    game_map: &mut Grid<C, F>,
    creatures: &usize,
    food: &usize,
) -> (r: Result<(), PlacementError>)
    requires
        is_rectangular(old(game_map)@),
        all_empty(old(game_map)@),
    ensures
        r is Ok <==> *creatures + *food <= width_of(old(game_map)@) * old(game_map)@.len(),
        r is Err ==> r == Err::<(), _>(PlacementError::CapacityExceeded) && final(game_map)@ == old(
            game_map,
        )@,
        r is Ok ==> has_shape(final(game_map)@, width_of(old(game_map)@), old(game_map)@.len() as int),
        r is Ok ==> holds_counts(final(game_map)@, *creatures as int, *food as int),
{
    let height = game_map.len();
    let width = if height == 0 {
        0
    } else {
        game_map[0].len()
    };
    let ghost w = width_of(old(game_map)@);
    let ghost h = height as int;
    let mut available = all_positions(width, height);
    let capacity = available.len();
    if *creatures > capacity || *food > capacity - *creatures {
        return Err(PlacementError::CapacityExceeded);
    }
    proof {
        let m = game_map@;
        assert(creature_cells(m) =~= Set::empty());
        assert(food_cells(m) =~= Set::empty());
        assert forall|i: int| 0 <= i < available@.len() implies in_bounds(m, #[trigger] available@[i].0 as int, available@[i].1 as int)
            && m[available@[i].0 as int]@[available@[i].1 as int] is Empty by {
            assert(m[available@[i].0 as int]@.len() == w);
        }
    }
    let mut k: usize = 0;
    while k < *creatures
        invariant
            k <= *creatures,
            *creatures + *food <= capacity,
            capacity == w * h,
            available@.len() == capacity - k,
            pool_is_free(game_map@, available@),
            has_shape(game_map@, w, h),
            holds_counts(game_map@, k as int, 0),
        decreases *creatures - k,
    {
        if available.len() > 0 {
            let ghost before = game_map@;
            let pos = fill_random_cell(game_map, &mut available, CellContent::Creature(C::default()));
            proof {
                lemma_fill_cell(before, game_map@, pos.0 as int, pos.1 as int, game_map@[pos.0 as int]@[pos.1 as int]);
                assert forall|r: int| 0 <= r < game_map@.len() implies #[trigger] game_map@[r]@.len() == w by {
                    if r != pos.0 {
                        assert(game_map@[r] == before[r]);
                    }
                }
            }
        }
        k = k + 1;
    }
    let mut j: usize = 0;
    while j < *food
        invariant
            j <= *food,
            *creatures + *food <= capacity,
            capacity == w * h,
            available@.len() == capacity - *creatures - j,
            pool_is_free(game_map@, available@),
            has_shape(game_map@, w, h),
            holds_counts(game_map@, *creatures as int, j as int),
        decreases *food - j,
    {
        if available.len() > 0 {
            let ghost before = game_map@;
            let pos = fill_random_cell(game_map, &mut available, CellContent::Food(F::default()));
            proof {
                lemma_fill_cell(before, game_map@, pos.0 as int, pos.1 as int, game_map@[pos.0 as int]@[pos.1 as int]);
                assert forall|r: int| 0 <= r < game_map@.len() implies #[trigger] game_map@[r]@.len() == w by {
                    if r != pos.0 {
                        assert(game_map@[r] == before[r]);
                    }
                }
            }
        }
        j = j + 1;
    }
    Ok(())
}

/// No cell holds both a creature and food: the creature cells and the food
/// cells of a grid are disjoint, and together they are its occupied cells.
pub proof fn lemma_roles_disjoint<C, F>(m: Seq<Vec<CellContent<C, F>>>)
    ensures
        creature_cells(m).disjoint(food_cells(m)),
        occupied_cells(m) == creature_cells(m).union(food_cells(m)),
{
    assert(occupied_cells(m) =~= creature_cells(m).union(food_cells(m)));
}

/// A grid holding `creatures` creatures and `food` pieces of food has exactly
/// `creatures + food` occupied cells.
pub proof fn lemma_occupied_count<C, F>(m: Seq<Vec<CellContent<C, F>>>, creatures: int, food: int)
    requires
        holds_counts(m, creatures, food),
    ensures
        occupied_cells(m).finite(),
        occupied_cells(m).len() == creatures + food,
{
    lemma_roles_disjoint(m);
    vstd::set_lib::lemma_set_disjoint_lens(creature_cells(m), food_cells(m));
}

/// A grid of `height` rows of `width` empty cells.
pub fn empty_grid<C, F>(width: usize, height: usize) -> (m: Grid<C, F>)
    ensures
        has_shape(m@, width as int, height as int),
        all_empty(m@),
{
    let mut m: Grid<C, F> = Vec::new();
    let mut r: usize = 0;
    while r < height
        invariant
            r <= height,
            has_shape(m@, width as int, r as int),
            all_empty(m@),
        decreases height - r,
    {
        let mut row: Vec<CellContent<C, F>> = Vec::new();
        let mut c: usize = 0;
        while c < width
            invariant
                c <= width,
                row@.len() == c,
                forall|i: int| 0 <= i < row@.len() ==> (#[trigger] row@[i]) is Empty,
            decreases width - c,
        {
            row.push(CellContent::Empty);
            c = c + 1;
        }
        m.push(row);
        r = r + 1;
    }
    m
}

/// A world: its grid and the parameters of the simulation that runs on it.
///
/// `dimensions` is `(width, height)`: the grid has `height` rows of `width`
/// cells. The mutation rate is counted in thousandths (so 100 stands for a
/// rate of 0.1); the mutation rate and the epoch length are kept for the
/// simulation and not read here.
pub struct GameState<Creature: traits::Creature, Food: traits::Food> {
    map: Grid<Creature, Food>,
    dimensions: (usize, usize),
    mutation_rate: u32,
    epoch_length: usize,
    creatures: usize,
    food: usize,
}

impl<Creature: traits::Creature, Food: traits::Food> GameState<Creature, Food> {
    /// The grid of this world.
    pub closed spec fn spec_map(&self) -> Seq<Vec<CellContent<Creature, Food>>> {
        self.map@
    }

    /// `(width, height)` of this world.
    pub closed spec fn spec_dimensions(&self) -> (usize, usize) {
        self.dimensions
    }

    /// The mutation rate, in thousandths.
    pub closed spec fn spec_mutation_rate(&self) -> u32 {
        self.mutation_rate
    }

    /// The length of an epoch of the simulation.
    pub closed spec fn spec_epoch_length(&self) -> usize {
        self.epoch_length
    }

    /// The number of creatures this world was populated with.
    pub closed spec fn spec_creatures(&self) -> usize {
        self.creatures
    }

    /// The number of pieces of food this world was populated with.
    pub closed spec fn spec_food(&self) -> usize {
        self.food
    }

    /// The text view of this world's grid: the column numbers, then each row
    /// as its number and one letter per cell (`E`, `C` or `F`).
    pub fn map_text(&self) -> (r: String)
        ensures
            r@ == grid_text(self.spec_map()),
    {
        render_grid(&self.map)
    }

    /// The grid of this world.
    pub fn map(&self) -> (r: &Grid<Creature, Food>)
        ensures
            r@ == self.spec_map(),
    {
        &self.map
    }

    /// Mutable access to the grid of this world; the other fields stay.
    pub fn map_mut(&mut self) -> (r: &mut Grid<Creature, Food>)
        ensures
            r@ == old(self).spec_map(),
            final(self).spec_map() == final(r)@,
            final(self).spec_dimensions() == old(self).spec_dimensions(),
            final(self).spec_mutation_rate() == old(self).spec_mutation_rate(),
            final(self).spec_epoch_length() == old(self).spec_epoch_length(),
            final(self).spec_creatures() == old(self).spec_creatures(),
            final(self).spec_food() == old(self).spec_food(),
    {
        &mut self.map
    }

    /// `(width, height)` of this world.
    pub fn dimensions(&self) -> (r: &(usize, usize))
        ensures
            *r == self.spec_dimensions(),
    {
        &self.dimensions
    }

    /// Replaces `(width, height)` of this world; the rest stays.
    pub fn set_dimensions(&mut self, dimensions: (usize, usize))
        ensures
            final(self).spec_dimensions() == dimensions,
            final(self).spec_map() == old(self).spec_map(),
            final(self).spec_mutation_rate() == old(self).spec_mutation_rate(),
            final(self).spec_epoch_length() == old(self).spec_epoch_length(),
            final(self).spec_creatures() == old(self).spec_creatures(),
            final(self).spec_food() == old(self).spec_food(),
    {
        self.dimensions = dimensions;
    }

    /// The mutation rate, in thousandths.
    pub fn mutation_rate(&self) -> (r: u32)
        ensures
            r == self.spec_mutation_rate(),
    {
        self.mutation_rate
    }

    /// Replaces the mutation rate, in thousandths; the rest stays.
    pub fn set_mutation_rate(&mut self, mutation_rate: u32)
        ensures
            final(self).spec_mutation_rate() == mutation_rate,
            final(self).spec_map() == old(self).spec_map(),
            final(self).spec_dimensions() == old(self).spec_dimensions(),
            final(self).spec_epoch_length() == old(self).spec_epoch_length(),
            final(self).spec_creatures() == old(self).spec_creatures(),
            final(self).spec_food() == old(self).spec_food(),
    {
        self.mutation_rate = mutation_rate;
    }

    /// The length of an epoch.
    pub fn epoch_length(&self) -> (r: usize)
        ensures
            r == self.spec_epoch_length(),
    {
        self.epoch_length
    }

    /// Replaces the length of an epoch; the rest stays.
    pub fn set_epoch_length(&mut self, epoch_length: usize)
        ensures
            final(self).spec_epoch_length() == epoch_length,
            final(self).spec_map() == old(self).spec_map(),
            final(self).spec_dimensions() == old(self).spec_dimensions(),
            final(self).spec_mutation_rate() == old(self).spec_mutation_rate(),
            final(self).spec_creatures() == old(self).spec_creatures(),
            final(self).spec_food() == old(self).spec_food(),
    {
        self.epoch_length = epoch_length;
    }

    /// The number of creatures this world was populated with.
    pub fn creatures(&self) -> (r: usize)
        ensures
            r == self.spec_creatures(),
    {
        self.creatures
    }

    /// Replaces the number of creatures this world was populated with; the rest stays.
    pub fn set_creatures(&mut self, creatures: usize)
        ensures
            final(self).spec_creatures() == creatures,
            final(self).spec_map() == old(self).spec_map(),
            final(self).spec_dimensions() == old(self).spec_dimensions(),
            final(self).spec_mutation_rate() == old(self).spec_mutation_rate(),
            final(self).spec_epoch_length() == old(self).spec_epoch_length(),
            final(self).spec_food() == old(self).spec_food(),
    {
        self.creatures = creatures;
    }

    /// The number of pieces of food this world was populated with.
    pub fn food(&self) -> (r: usize)
        ensures
            r == self.spec_food(),
    {
        self.food
    }

    /// Replaces the number of pieces of food this world was populated with; the rest stays.
    pub fn set_food(&mut self, food: usize)
        ensures
            final(self).spec_food() == food,
            final(self).spec_map() == old(self).spec_map(),
            final(self).spec_dimensions() == old(self).spec_dimensions(),
            final(self).spec_mutation_rate() == old(self).spec_mutation_rate(),
            final(self).spec_epoch_length() == old(self).spec_epoch_length(),
            final(self).spec_creatures() == old(self).spec_creatures(),
    {
        self.food = food;
    }

    /// Builds a world of the given `(width, height)`, with `*creatures`
    /// creatures and `*food` pieces of food placed at random on distinct
    /// cells. Gives `None` when they do not fit on the grid.
    pub fn new(
        dimensions: &(usize, usize),
        mutation_rate: &u32,
        epoch_length: &usize,
        creatures: &usize,
        food: &usize,
    ) -> (r: Option<Self>)
        ensures
            r is Some <==> *creatures + *food <= dimensions.0 * dimensions.1,
            r matches Some(s) ==> {
                &&& s.spec_dimensions() == *dimensions
                &&& s.spec_mutation_rate() == *mutation_rate
                &&& s.spec_epoch_length() == *epoch_length
                &&& s.spec_creatures() == *creatures
                &&& s.spec_food() == *food
                &&& has_shape(s.spec_map(), dimensions.0 as int, dimensions.1 as int)
                &&& holds_counts(s.spec_map(), *creatures as int, *food as int)
            },
    {
        let mut game_map: Grid<Creature, Food> = empty_grid(dimensions.0, dimensions.1);
        proof {
            if dimensions.1 > 0 {
                assert(game_map@[0]@.len() == dimensions.0);
            }
            assert(width_of(game_map@) * game_map@.len() == dimensions.0 * dimensions.1);
        }
        if let Err(_) = place_creatures_and_food_randomly(&mut game_map, creatures, food) {
            return None;
        }
        proof {
            if dimensions.1 > 0 {
                assert(width_of(game_map@) == dimensions.0);
            }
        }
        Some(
            GameState {
                map: game_map,
                dimensions: *dimensions,
                mutation_rate: *mutation_rate,
                epoch_length: *epoch_length,
                creatures: *creatures,
                food: *food,
            },
        )
    }
}

impl<Creature: traits::Creature, Food: traits::Food> Default for GameState<Creature, Food> {
    /// A 10 by 10 world with 20 creatures and 50 pieces of food, a mutation
    /// rate of 0.1 and epochs of length 20.
    fn default() -> (r: Self)
        ensures
            r.spec_dimensions() == (10usize, 10usize),
            r.spec_mutation_rate() == 100,
            r.spec_epoch_length() == 20,
            r.spec_creatures() == 20,
            r.spec_food() == 50,
            has_shape(r.spec_map(), 10, 10),
            holds_counts(r.spec_map(), 20, 50),
            occupied_cells(r.spec_map()).finite(),
            occupied_cells(r.spec_map()).len() == 70,
    {
        let mut game_map: Grid<Creature, Food> = empty_grid(10, 10);
        proof {
            assert(game_map@[0]@.len() == 10);
        }
        match place_creatures_and_food_randomly(&mut game_map, &20, &50) {
            Ok(()) => {
                proof {
                    lemma_occupied_count(game_map@, 20, 50);
                }
                GameState {
                    map: game_map,
                    dimensions: (10, 10),
                    mutation_rate: 100,
                    epoch_length: 20,
                    creatures: 20,
                    food: 50,
                }
            },
            Err(_) => GameState {
                map: game_map,
                dimensions: (10, 10),
                mutation_rate: 100,
                epoch_length: 20,
                creatures: 0,
                food: 0,
            },
        }
    }
}

} // verus!
