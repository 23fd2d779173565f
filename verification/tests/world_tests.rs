use grid_world::world::{parse_command, PlayerInput, World};

fn type_order() -> Vec<String> {
    vec!["thing".to_string(), "player".to_string()]
}

fn no_input() -> PlayerInput {
    PlayerInput { up: false, down: false, right: false, left: false }
}

fn row(world: &World, y: usize) -> String {
    let mut s = String::new();
    let mut x: usize = 0;
    while x < world.w {
        s.push(world.canvas_buf[y * world.w + x]);
        x += 1;
    }
    s
}

#[test]
fn new_world_has_blank_canvas() {
    let world = World::new(10, 6, type_order());
    assert_eq!(world.w, 10);
    assert_eq!(world.h, 6);
    assert_eq!(world.canvas_buf.len(), 60);
    for c in &world.canvas_buf {
        assert_eq!(*c, ' ');
    }
}

#[test]
fn new_world_entity_positions() {
    let world = World::new(10, 6, type_order());
    assert_eq!(world.entity_positions(), vec![(3, 0), (5, 0)]);
}

#[test]
fn first_tick_renders_both_glyphs() {
    let mut world = World::new(10, 6, type_order());
    world.tick();
    assert_eq!(row(&world, 0), "   ##@@   ");
    let mut y: usize = 1;
    while y < 6 {
        assert_eq!(row(&world, y), "          ");
        y += 1;
    }
}

#[test]
fn tick_twice_is_idempotent() {
    let mut world = World::new(10, 6, type_order());
    world.tick();
    let first = world.canvas_buf.clone();
    world.tick();
    assert_eq!(world.canvas_buf, first);
}

#[test]
fn left_move_overlap_paints_player_on_top() {
    let mut world = World::new(10, 6, type_order());
    world.tick();
    let input = parse_command(&"a".to_string());
    world.tick_typ(&input);
    assert_eq!(world.entity_positions(), vec![(3, 0), (4, 0)]);
    world.tick();
    assert_eq!(row(&world, 0), "   #@@    ");
}

#[test]
fn overlap_shows_later_type_regardless_of_store_order() {
    // The player entity is created after the thing entity; with the paint
    // order reversed, the thing's glyph must win on the shared cells.
    let mut world = World::new(10, 6, vec!["player".to_string(), "thing".to_string()]);
    let left = parse_command(&"a".to_string());
    world.tick_typ(&left);
    world.tick_typ(&left);
    assert_eq!(world.entity_positions(), vec![(3, 0), (3, 0)]);
    world.tick();
    assert_eq!(row(&world, 0), "   ##     ");
}

#[test]
fn unrecognized_command_moves_nothing() {
    let mut world = World::new(10, 6, type_order());
    let input = parse_command(&"x".to_string());
    assert!(!input.up && !input.down && !input.left && !input.right);
    world.tick_typ(&input);
    assert_eq!(world.entity_positions(), vec![(3, 0), (5, 0)]);
}

#[test]
fn parse_command_recognizes_each_direction() {
    let left = parse_command(&"a".to_string());
    assert!(left.left && !left.right && !left.up && !left.down);
    let right = parse_command(&"d".to_string());
    assert!(right.right && !right.left && !right.up && !right.down);
    let up = parse_command(&"w".to_string());
    assert!(up.up && !up.down && !up.left && !up.right);
    let down = parse_command(&"s".to_string());
    assert!(down.down && !down.up && !down.left && !down.right);
}

#[test]
fn repeated_left_clamps_at_zero() {
    let mut world = World::new(10, 6, type_order());
    let left = parse_command(&"a".to_string());
    let mut i: usize = 0;
    while i < 12 {
        world.tick_typ(&left);
        i += 1;
    }
    assert_eq!(world.entity_positions()[1], (0, 0));
}

#[test]
fn repeated_right_clamps_at_last_column() {
    let mut world = World::new(10, 6, type_order());
    let right = parse_command(&"d".to_string());
    let mut i: usize = 0;
    while i < 12 {
        world.tick_typ(&right);
        i += 1;
    }
    // The two-cell glyph ends at the last column: x + 2 == width.
    assert_eq!(world.entity_positions()[1], (8, 0));
}

#[test]
fn repeated_vertical_clamps_at_edges() {
    let mut world = World::new(10, 6, type_order());
    let down = parse_command(&"s".to_string());
    let mut i: usize = 0;
    while i < 12 {
        world.tick_typ(&down);
        i += 1;
    }
    assert_eq!(world.entity_positions()[1], (5, 5));
    let up = parse_command(&"w".to_string());
    i = 0;
    while i < 12 {
        world.tick_typ(&up);
        i += 1;
    }
    assert_eq!(world.entity_positions()[1], (5, 0));
}

#[test]
fn diagonal_input_moves_both_axes() {
    let mut world = World::new(10, 6, type_order());
    let input = PlayerInput { up: false, down: true, right: false, left: true };
    world.tick_typ(&input);
    assert_eq!(world.entity_positions()[1], (4, 1));
}

#[test]
fn opposed_input_nets_zero() {
    let mut world = World::new(10, 6, type_order());
    let input = PlayerInput { up: true, down: true, right: true, left: true };
    world.tick_typ(&input);
    assert_eq!(world.entity_positions()[1], (5, 0));
}

#[test]
fn input_moves_only_player_entities() {
    let mut world = World::new(10, 6, type_order());
    let input = parse_command(&"d".to_string());
    world.tick_typ(&input);
    assert_eq!(world.entity_positions()[0], (3, 0));
}

#[test]
fn paint_single_type_leaves_other_cells() {
    let mut world = World::new(10, 6, type_order());
    world.set_canvas_buf_typ(&"player".to_string());
    assert_eq!(row(&world, 0), "     @@   ");
}

#[test]
fn next_counts_time_and_renders() {
    let mut world = World::new(10, 6, type_order());
    assert_eq!(world.next(), Some(1));
    assert_eq!(world.next(), Some(2));
    assert_eq!(row(&world, 0), "   ##@@   ");
}
