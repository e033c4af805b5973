use life::creature::SimpleCreature;
use life::food::SimpleFood;
use life::game::{
    empty_grid, place_creatures_and_food_randomly, CellContent, GameState, Grid, PlacementError,
};

type World = GameState<SimpleCreature, SimpleFood>;

/// (creatures, food, empty) cells of a grid.
fn tally(map: &Grid<SimpleCreature, SimpleFood>) -> (usize, usize, usize) {
    let mut count = (0, 0, 0);
    for row in map.iter() {
        for cell in row.iter() {
            match cell {
                CellContent::Creature(_) => count.0 += 1,
                CellContent::Food(_) => count.1 += 1,
                CellContent::Empty => count.2 += 1,
            }
        }
    }
    count
}

fn shape(map: &Grid<SimpleCreature, SimpleFood>) -> (usize, Vec<usize>) {
    (map.len(), map.iter().map(|r| r.len()).collect())
}

#[test]
fn check_default_map() {
    let game_map: World = GameState::default();
    println!("{}", game_map.map_text());
    let mut count: (usize, usize) = (0, 0);
    for row in game_map.map().iter() {
        for cell in row.iter() {
            match cell {
                CellContent::Creature(_) => count.1 += 1,
                CellContent::Food(_) => count.0 += 1,
                _ => {}
            }
        }
    }
    assert_eq!(70, count.1 + count.0);
}

#[test]
fn default_world_is_ten_by_ten_with_its_parameters() {
    let world: World = GameState::default();
    assert_eq!(shape(world.map()), (10, vec![10; 10]));
    assert_eq!(tally(world.map()), (20, 50, 30));
    assert_eq!(*world.dimensions(), (10, 10));
    assert_eq!(world.mutation_rate(), 100);
    assert_eq!(world.epoch_length(), 20);
    assert_eq!(world.creatures(), 20);
    assert_eq!(world.food(), 50);
}

#[test]
fn new_gives_none_when_counts_exceed_cells() {
    let world: Option<World> = GameState::new(&(2, 2), &100, &20, &3, &2);
    assert!(world.is_none());
}

#[test]
fn new_exact_fit_leaves_no_empty_cell() {
    let world: World = GameState::new(&(3, 3), &100, &20, &5, &4).unwrap();
    assert_eq!(tally(world.map()), (5, 4, 0));
}

#[test]
fn new_uses_width_for_row_length_and_height_for_rows() {
    let world: World = GameState::new(&(4, 2), &250, &7, &3, &1).unwrap();
    assert_eq!(shape(world.map()), (2, vec![4, 4]));
    assert_eq!(tally(world.map()), (3, 1, 4));
    assert_eq!(*world.dimensions(), (4, 2));
    assert_eq!(world.mutation_rate(), 250);
    assert_eq!(world.epoch_length(), 7);
    assert_eq!(world.creatures(), 3);
    assert_eq!(world.food(), 1);
}

#[test]
fn new_on_a_grid_without_cells() {
    let empty: Option<World> = GameState::new(&(3, 0), &0, &0, &0, &0);
    assert_eq!(tally(empty.unwrap().map()), (0, 0, 0));
    let too_many: Option<World> = GameState::new(&(3, 0), &0, &0, &1, &0);
    assert!(too_many.is_none());
}

#[test]
fn placement_fills_the_requested_counts() {
    for _ in 0..20 {
        let mut map: Grid<SimpleCreature, SimpleFood> = empty_grid(5, 3);
        assert_eq!(place_creatures_and_food_randomly(&mut map, &6, &4), Ok(()));
        assert_eq!(shape(&map), (3, vec![5, 5, 5]));
        assert_eq!(tally(&map), (6, 4, 5));
    }
}

#[test]
fn placement_over_capacity_changes_nothing() {
    let mut map: Grid<SimpleCreature, SimpleFood> = empty_grid(3, 2);
    assert_eq!(
        place_creatures_and_food_randomly(&mut map, &4, &3),
        Err(PlacementError::CapacityExceeded)
    );
    assert_eq!(shape(&map), (2, vec![3, 3]));
    assert_eq!(tally(&map), (0, 0, 6));
    let mut huge: Grid<SimpleCreature, SimpleFood> = empty_grid(2, 2);
    assert_eq!(
        place_creatures_and_food_randomly(&mut huge, &usize::MAX, &usize::MAX),
        Err(PlacementError::CapacityExceeded)
    );
    assert_eq!(tally(&huge), (0, 0, 4));
}

#[test]
fn placement_never_puts_two_things_on_one_cell() {
    for _ in 0..20 {
        let mut map: Grid<SimpleCreature, SimpleFood> = empty_grid(4, 4);
        assert_eq!(place_creatures_and_food_randomly(&mut map, &9, &7), Ok(()));
        // Every one of the 16 placements landed on a cell of its own.
        assert_eq!(tally(&map), (9, 7, 0));
    }
}

#[test]
fn placement_with_nothing_to_place() {
    let mut map: Grid<SimpleCreature, SimpleFood> = empty_grid(2, 3);
    assert_eq!(place_creatures_and_food_randomly(&mut map, &0, &0), Ok(()));
    assert_eq!(tally(&map), (0, 0, 6));
}

#[test]
fn empty_grid_has_the_asked_shape() {
    let map: Grid<SimpleCreature, SimpleFood> = empty_grid(3, 2);
    assert_eq!(shape(&map), (2, vec![3, 3]));
    assert_eq!(tally(&map), (0, 0, 6));
}

#[test]
fn map_text_of_a_known_grid() {
    let mut world: World = GameState::new(&(2, 2), &0, &0, &0, &0).unwrap();
    world.map_mut()[0][1] = CellContent::Creature(SimpleCreature {});
    world.map_mut()[1][0] = CellContent::Food(SimpleFood {});
    assert_eq!(world.map_text(), "  0 1 \n\n0 E C \n\n1 F E \n\n");
}

#[test]
fn map_text_numbers_columns_and_rows_in_decimal() {
    let world: World = GameState::new(&(12, 11), &0, &0, &0, &0).unwrap();
    let text = world.map_text();
    assert!(text.starts_with("  0 1 2 3 4 5 6 7 8 9 10 11 \n\n0 "));
    assert!(text.ends_with("\n\n10 E E E E E E E E E E E E \n\n"));
}

#[test]
fn map_text_shows_each_cell_in_row_order() {
    let world: World = GameState::new(&(4, 3), &0, &0, &5, &2).unwrap();
    let text = world.map_text();
    let lines: Vec<&str> = text.split("\n\n").collect();
    assert_eq!(lines[0], "  0 1 2 3 ");
    for (r, row) in world.map().iter().enumerate() {
        let expected: String = row
            .iter()
            .map(|cell| match cell {
                CellContent::Creature(_) => "C ",
                CellContent::Food(_) => "F ",
                CellContent::Empty => "E ",
            })
            .collect();
        assert_eq!(lines[r + 1], format!("{} {}", r, expected));
    }
    assert_eq!(lines.len(), 5);
    assert_eq!(text.matches('C').count(), 5);
    assert_eq!(text.matches('F').count(), 2);
    assert_eq!(text.matches('E').count(), 5);
}

#[test]
fn setters_change_only_their_field() {
    let mut world: World = GameState::new(&(2, 3), &100, &20, &1, &1).unwrap();
    world.set_dimensions((6, 7));
    world.set_mutation_rate(500);
    world.set_epoch_length(9);
    world.set_creatures(4);
    world.set_food(5);
    assert_eq!(*world.dimensions(), (6, 7));
    assert_eq!(world.mutation_rate(), 500);
    assert_eq!(world.epoch_length(), 9);
    assert_eq!(world.creatures(), 4);
    assert_eq!(world.food(), 5);
    assert_eq!(shape(world.map()), (3, vec![2, 2, 2]));
    assert_eq!(tally(world.map()), (1, 1, 4));
}
