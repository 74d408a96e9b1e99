use coral_reef::assets::Asset;
use coral_reef::constants::{Layout, LIFE_PERIOD, DISEASE_PERIOD};
use coral_reef::controller::{Controller, Key};
use coral_reef::conway_rules::ConwayRules;
use coral_reef::coral::{Cell, Coral, Grid};
use coral_reef::model::Model;
use coral_reef::player::{Direction, Player};
use coral_reef::rulebook::{Board, Color, Rulebook};
use coral_reef::rules::CoralRules;
use coral_reef::stamps::StampSet;
use coral_reef::view::View;

const DOT: &str = "@";

fn layout(w: usize, h: usize) -> Layout {
    Layout { board_w: w, board_h: h }
}

fn stamps() -> StampSet {
    StampSet::from_loaded(Vec::new(), DOT)
}

fn conway(w: usize, h: usize) -> Coral<ConwayRules> {
    Coral::new(stamps(), ConwayRules::default(), layout(w, h))
}

fn classic(w: usize, h: usize) -> Coral<CoralRules> {
    Coral::new(stamps(), CoralRules::default(), layout(w, h))
}

fn rows_of(a: &Asset) -> Vec<String> {
    a.rows.iter().map(|r| r.iter().collect()).collect()
}

// ---- assets ----

#[test]
fn asset_pads_rows_to_widest() {
    let a = Asset::from_str(" @\n@@@\n @\n");
    assert_eq!(a.width, 3);
    assert_eq!(a.height, 3);
    assert_eq!(rows_of(&a), vec![" @ ", "@@@", " @ "]);
}

#[test]
fn asset_expands_tabs_to_four_spaces() {
    let a = Asset::from_str("\tx");
    assert_eq!(rows_of(&a), vec!["    x"]);
    assert_eq!(a.width, 5);
}

#[test]
fn asset_splits_crlf_lines() {
    let a = Asset::from_str("ab\r\ncd");
    assert_eq!(rows_of(&a), vec!["ab", "cd"]);
}

#[test]
fn asset_drops_one_trailing_empty_line() {
    let a = Asset::from_str("a\n\n");
    assert_eq!(rows_of(&a), vec!["a"]);
    assert_eq!(a.height, 1);
}

#[test]
fn asset_from_empty_text_is_empty() {
    let a = Asset::from_str("");
    assert_eq!(a.height, 0);
    assert_eq!(a.width, 0);
    assert!(a.rows.is_empty());
}

#[test]
fn asset_keeps_inner_blank_lines() {
    let a = Asset::from_str("ab\n\nc\n");
    assert_eq!(rows_of(&a), vec!["ab", "  ", "c "]);
}

// ---- layout ----

#[test]
fn layout_for_target_terminal() {
    let l = Layout::from_size(80, 24);
    assert_eq!((l.board_w, l.board_h), (78, 17));
    assert_eq!(l.frame_w(), 80);
    assert_eq!(l.total_rows(), 24);
}

#[test]
fn layout_is_capped_and_floored() {
    let big = Layout::from_size(300, 100);
    assert_eq!((big.board_w, big.board_h), (78, 17));
    let tiny = Layout::from_size(3, 2);
    assert_eq!((tiny.board_w, tiny.board_h), (20, 6));
}

#[test]
fn layout_fits_any_terminal_at_least_the_minimum() {
    let (min_c, min_r) = Layout::min_terminal();
    assert_eq!((min_c, min_r), (22, 13));
    for cols in min_c..120 {
        for rows in min_r..40 {
            let l = Layout::from_size(cols, rows);
            assert!(l.frame_w() <= cols && l.frame_w() <= 80);
            assert!(l.total_rows() <= rows && l.total_rows() <= 24);
        }
    }
}

// ---- player ----

#[test]
fn player_starts_centred() {
    let p = Player::new(None, layout(20, 6));
    assert_eq!((p.x, p.y), (10, 3));
    assert_eq!(p.glyph, '@');
    assert_eq!(p.glyph_overlay(), 'X');
}

#[test]
fn player_moves_are_clamped_to_the_board() {
    let mut p = Player::new(None, layout(2, 2));
    assert_eq!((p.x, p.y), (1, 1));
    p.move_in(Direction::Right, 2, 2);
    p.move_in(Direction::Down, 2, 2);
    assert_eq!((p.x, p.y), (1, 1));
    p.move_in(Direction::Left, 2, 2);
    p.move_in(Direction::Up, 2, 2);
    assert_eq!((p.x, p.y), (0, 0));
    p.move_in(Direction::Left, 2, 2);
    p.move_in(Direction::Up, 2, 2);
    assert_eq!((p.x, p.y), (0, 0));
}

// ---- classic rules ----

#[test]
fn classic_defaults_are_conway_thresholds() {
    let r = CoralRules::default();
    for n in 0..=8u8 {
        assert_eq!(r.is_born(n), n == 3);
        assert_eq!(r.survives(n), n == 2 || n == 3);
    }
    assert!(r.disease_spreads && r.disease_seeds);
    assert_eq!(r.healthy_palette.len(), 216);
    assert_eq!(r.healthy_palette[0], 16);
    assert_eq!(r.healthy_palette[215], 231);
}

#[test]
fn classic_health_ladder() {
    let r = CoralRules::default();
    assert_eq!(r.heal(Cell::Diseased), Cell::Unhealthy);
    assert_eq!(r.heal(Cell::Unhealthy), Cell::Healthy);
    assert_eq!(r.heal(Cell::Healthy), Cell::Healthy);
    assert_eq!(r.heal(Cell::Empty), Cell::Empty);
    assert_eq!(r.decline(Cell::Healthy), Cell::Unhealthy);
    assert_eq!(r.decline(Cell::Unhealthy), Cell::Diseased);
    assert_eq!(r.decline(Cell::Diseased), Cell::Empty);
    assert_eq!(r.decline(Cell::Empty), Cell::Empty);
    assert_eq!(r.diseased_next(Cell::Diseased), Cell::Empty);
    for c in [Cell::Healthy, Cell::Unhealthy] {
        assert_eq!(r.heal(r.decline(c)), c);
    }
    for c in [Cell::Empty, Cell::Healthy, Cell::Unhealthy, Cell::Diseased] {
        assert_eq!(r.decline(r.decline(r.decline(c))), Cell::Empty);
    }
}

#[test]
fn classic_appearance() {
    let r = CoralRules::default();
    assert_eq!(r.cell_glyph(Cell::Healthy), '@');
    assert_eq!(r.cell_glyph(Cell::Unhealthy), 'o');
    assert_eq!(r.cell_glyph(Cell::Diseased), '#');
    assert_eq!(r.cell_glyph(Cell::Empty), ' ');
    assert_eq!(r.cell_color(Cell::Healthy, 0, 0), Color::Xterm(16));
    assert_eq!(r.cell_color(Cell::Healthy, 1, 0), Color::Xterm(23));
    assert_eq!(r.cell_color(Cell::Healthy, 0, 1), Color::Xterm(29));
    assert_eq!(r.cell_color(Cell::Unhealthy, 3, 3), Color::White);
    assert_eq!(r.cell_color(Cell::Diseased, 3, 3), Color::Xterm(64));
    assert_eq!(r.cell_color(Cell::Empty, 3, 3), Color::Black);
    assert!(!r.player_can_kill_disease());
    let mut plain = CoralRules::default();
    plain.healthy_palette = Vec::new();
    assert_eq!(plain.cell_color(Cell::Healthy, 5, 5), Color::White);
}

#[test]
fn classic_block_stays_and_lone_cell_declines() {
    let mut c = classic(6, 6);
    for (x, y) in [(1, 1), (2, 1), (1, 2), (2, 2)] {
        c.set(x, y, Cell::Healthy);
    }
    c.set(4, 4, Cell::Healthy);
    c.life_step(16);
    for (x, y) in [(1, 1), (2, 1), (1, 2), (2, 2)] {
        assert_eq!(c.get(x, y), Cell::Healthy);
    }
    assert_eq!(c.get(4, 4), Cell::Unhealthy);
    assert_eq!(c.census(), (4, 1, 0));
}

#[test]
fn classic_birth_on_three() {
    let mut c = classic(5, 5);
    c.set(0, 0, Cell::Healthy);
    c.set(2, 0, Cell::Unhealthy);
    c.set(0, 2, Cell::Diseased);
    c.life_step(0);
    assert_eq!(c.get(1, 1), Cell::Healthy);
}

fn classic_without_seeding(w: usize, h: usize) -> Coral<CoralRules> {
    let mut rules = CoralRules::default();
    rules.disease_seeds = false;
    Coral::new(stamps(), rules, layout(w, h))
}

#[test]
fn classic_disease_spreads_and_kills() {
    let mut c = classic_without_seeding(5, 5);
    c.set(2, 2, Cell::Diseased);
    c.set(1, 1, Cell::Healthy);
    c.set(3, 2, Cell::Unhealthy);
    c.set(0, 0, Cell::Healthy);
    c.disease_step(0);
    assert_eq!(c.get(2, 2), Cell::Empty);
    assert_eq!(c.get(1, 1), Cell::Diseased);
    assert_eq!(c.get(3, 2), Cell::Diseased);
    assert_eq!(c.get(0, 0), Cell::Healthy);
}

// ---- Conway rules ----

#[test]
fn conway_blinker_turns_and_leaves_unhealthy_cells() {
    let mut c = conway(5, 5);
    for y in 1..4 {
        c.set(2, y, Cell::Healthy);
    }
    c.life_step(32);
    assert_eq!(c.get(1, 2), Cell::Healthy);
    assert_eq!(c.get(2, 2), Cell::Healthy);
    assert_eq!(c.get(3, 2), Cell::Healthy);
    assert_eq!(c.get(2, 1), Cell::Unhealthy);
    assert_eq!(c.get(2, 3), Cell::Unhealthy);
    assert_eq!(c.census(), (3, 2, 0));
}

#[test]
fn conway_unhealthy_cell_expires_after_its_lifespan() {
    let mut c = conway(5, 5);
    c.set(0, 0, Cell::Healthy);
    c.life_step(10);
    assert_eq!(c.get(0, 0), Cell::Unhealthy);
    c.life_step(15);
    assert_eq!(c.get(0, 0), Cell::Unhealthy);
    c.life_step(16);
    assert_eq!(c.get(0, 0), Cell::Empty);
}

#[test]
fn conway_disease_spares_unhealthy_and_expires() {
    let mut c = conway(5, 5);
    c.set(2, 2, Cell::Diseased);
    c.set(1, 2, Cell::Healthy);
    c.set(3, 2, Cell::Unhealthy);
    c.disease_step(100);
    assert_eq!(c.get(1, 2), Cell::Diseased);
    assert_eq!(c.get(3, 2), Cell::Unhealthy);
    // (2, 2) was set with age 0: 100 frames have elapsed.
    assert_eq!(c.get(2, 2), Cell::Empty);
    c.disease_step(103);
    assert_eq!(c.get(1, 2), Cell::Diseased);
    c.disease_step(104);
    assert_eq!(c.get(1, 2), Cell::Empty);
}

#[test]
fn conway_appearance() {
    let r = ConwayRules::default();
    assert_eq!(r.unhealthy_lifespan, 6);
    assert_eq!(r.disease_lifespan, 4);
    assert_eq!(r.cell_glyph(Cell::Unhealthy), 'O');
    assert_eq!(r.cell_color(Cell::Unhealthy, 0, 0), Color::Grey);
    assert_eq!(r.cell_color(Cell::Diseased, 0, 0), Color::Red);
    assert_eq!(r.cell_color(Cell::Healthy, 2, 1), Color::Xterm(16 + 27));
    assert!(r.player_can_kill_disease());
}

// ---- coral ----

#[test]
fn new_reef_is_empty() {
    let c = conway(7, 4);
    assert_eq!((c.width(), c.height()), (7, 4));
    assert_eq!(c.census(), (0, 0, 0));
    assert!(c.grid().iter().all(|&x| x == Cell::Empty));
    assert_eq!(c.grid().len(), 28);
}

#[test]
fn get_outside_the_board_is_empty() {
    let mut c = conway(3, 3);
    for y in 0..3 {
        for x in 0..3 {
            c.set(x, y, Cell::Healthy);
        }
    }
    assert_eq!(c.get(-1, 0), Cell::Empty);
    assert_eq!(c.get(0, -1), Cell::Empty);
    assert_eq!(c.get(3, 0), Cell::Empty);
    assert_eq!(c.get(0, 3), Cell::Empty);
    assert_eq!(c.get(2, 2), Cell::Healthy);
    c.set(5, 5, Cell::Diseased);
    assert_eq!(c.census(), (9, 0, 0));
}

#[test]
fn set_writes_row_major() {
    let mut c = conway(4, 3);
    c.set(3, 1, Cell::Diseased);
    assert_eq!(c.grid()[1 * 4 + 3], Cell::Diseased);
}

#[test]
fn stamping_keeps_surrounding_coral_and_heals_under_the_shape() {
    let mut c = conway(5, 5);
    c.set(0, 0, Cell::Diseased);
    c.set(1, 1, Cell::Unhealthy);
    c.set(2, 1, Cell::Diseased);
    let a = Asset::from_str(" @\n@@@\n @\n");
    c.stamp_asset(&a, 0, 0);
    assert_eq!(c.get(0, 0), Cell::Diseased);
    assert_eq!(c.get(1, 0), Cell::Healthy);
    assert_eq!(c.get(0, 1), Cell::Healthy);
    assert_eq!(c.get(1, 1), Cell::Healthy);
    assert_eq!(c.get(2, 1), Cell::Healthy);
    assert_eq!(c.get(1, 2), Cell::Healthy);
    assert_eq!(c.get(2, 2), Cell::Empty);
    assert_eq!(c.census(), (5, 0, 1));
}

#[test]
fn stamping_clips_at_the_board_edge() {
    let mut c = conway(3, 3);
    let a = Asset::from_str("@@@@\n@@@@");
    c.stamp_asset(&a, 1, 2);
    assert_eq!(c.census(), (2, 0, 0));
    assert_eq!(c.get(1, 2), Cell::Healthy);
    assert_eq!(c.get(2, 2), Cell::Healthy);
}

#[test]
fn stamping_resets_the_unhealthy_timer() {
    let mut c = conway(4, 4);
    c.set(0, 0, Cell::Healthy);
    c.life_step(10);
    assert_eq!(c.get(0, 0), Cell::Unhealthy);
    c.stamp_random(0, 0);
    assert_eq!(c.get(0, 0), Cell::Healthy);
}

#[test]
fn kill_disease_clears_the_three_by_three_area() {
    let mut c = conway(6, 6);
    for (x, y) in [(1, 1), (2, 2), (3, 3), (4, 4), (3, 1)] {
        c.set(x, y, Cell::Diseased);
    }
    c.set(2, 1, Cell::Healthy);
    let killed = c.kill_disease(2, 2);
    assert_eq!(killed, 4);
    assert_eq!(c.get(4, 4), Cell::Diseased);
    assert_eq!(c.get(2, 1), Cell::Healthy);
    assert_eq!(c.census(), (1, 0, 1));
}

#[test]
fn kill_disease_at_the_corner() {
    let mut c = conway(3, 3);
    c.set(0, 0, Cell::Diseased);
    c.set(1, 1, Cell::Diseased);
    c.set(2, 2, Cell::Diseased);
    assert_eq!(c.kill_disease(0, 0), 2);
    assert_eq!(c.get(2, 2), Cell::Diseased);
}

#[test]
fn kill_disease_needs_a_rulebook_that_allows_it() {
    let mut c = classic(3, 3);
    c.set(1, 1, Cell::Diseased);
    assert!(!c.player_can_kill_disease());
    assert_eq!(c.kill_disease(1, 1), 0);
    assert_eq!(c.get(1, 1), Cell::Diseased);
}

#[test]
fn seed_disease_infects_the_only_healthy_cell() {
    let mut c = conway(4, 4);
    c.set(2, 3, Cell::Healthy);
    c.seed_disease(7);
    assert_eq!(c.get(2, 3), Cell::Diseased);
    assert_eq!(c.census(), (0, 0, 1));
}

#[test]
fn seed_disease_on_a_reef_without_healthy_coral_does_nothing() {
    let mut c = conway(4, 4);
    c.set(1, 1, Cell::Unhealthy);
    c.seed_disease(7);
    assert_eq!(c.census(), (0, 1, 0));
}

#[test]
fn seed_disease_at_picks_healthy_cells_in_row_major_order() {
    let mut c = conway(4, 4);
    c.set(3, 0, Cell::Healthy);
    c.set(0, 2, Cell::Healthy);
    c.set(1, 3, Cell::Healthy);
    c.seed_disease_at(5, 1);
    assert_eq!(c.get(0, 2), Cell::Diseased);
    assert_eq!(c.census(), (2, 0, 1));
    // Its timer started at frame 5: it dies 4 frames later.
    c.disease_step(8);
    assert_eq!(c.get(0, 2), Cell::Diseased);
    c.disease_step(9);
    assert_eq!(c.get(0, 2), Cell::Empty);
}

#[test]
fn seed_spawn_only_plants_healthy_coral() {
    let mut c = conway(10, 8);
    c.set(0, 0, Cell::Diseased);
    c.seed_spawn(3);
    let (h, u, _) = c.census();
    assert!(h >= 1 && h <= 3);
    assert_eq!(u, 0);
    let mut none = conway(10, 8);
    none.seed_spawn(0);
    assert_eq!(none.census(), (0, 0, 0));
}

// ---- grid as a board ----

#[test]
fn board_set_cell_keeps_the_age() {
    let mut g = Grid::new(3, 3);
    g.set_age(1, 1, 42);
    g.set_cell(1, 1, Cell::Healthy);
    assert_eq!(g.age(1, 1), 42);
    assert_eq!(g.cell(1, 1), Cell::Healthy);
    assert_eq!(g.age(7, 7), 0);
    g.set_cell(9, 9, Cell::Healthy);
    assert_eq!(g.cell(9, 9), Cell::Empty);
}

#[test]
fn board_neighbour_counts() {
    let mut g = Grid::new(3, 3);
    g.set_cell(0, 0, Cell::Healthy);
    g.set_cell(1, 0, Cell::Diseased);
    g.set_cell(2, 2, Cell::Diseased);
    g.set_cell(1, 1, Cell::Healthy);
    assert_eq!(g.live_neighbors(1, 1), 3);
    assert_eq!(g.neighbors_of(1, 1, Cell::Diseased), 2);
    assert_eq!(g.neighbors_of(1, 1, Cell::Empty), 5);
    assert_eq!(g.live_neighbors(0, 0), 2);
    assert_eq!((g.width(), g.height()), (3, 3));
}

// ---- stamps ----

#[test]
fn stamp_set_falls_back_to_the_built_in_shape() {
    let s = StampSet::from_loaded(Vec::new(), " @\n@@@\n @\n");
    assert_eq!(s.len(), 1);
    assert_eq!(rows_of(s.get(0)), vec![" @ ", "@@@", " @ "]);
    assert_eq!(rows_of(s.random()), vec![" @ ", "@@@", " @ "]);
}

#[test]
fn stamp_set_get_wraps_any_index() {
    let s = StampSet::from_loaded(vec![Asset::from_str("a"), Asset::from_str("bb")], DOT);
    assert_eq!(s.len(), 2);
    assert_eq!(s.get(0).width, 1);
    assert_eq!(s.get(1).width, 2);
    assert_eq!(s.get(2).width, 1);
    assert_eq!(s.get(usize::MAX).width, 2);
    for _ in 0..20 {
        let w = s.random().width;
        assert!(w == 1 || w == 2);
    }
}

// ---- model ----

fn model_with(c: Coral<ConwayRules>) -> Model<ConwayRules> {
    let l = layout(c.width(), c.height());
    Model::new(Player::new(None, l), c)
}

#[test]
fn new_model_is_fresh() {
    let m = model_with(conway(5, 5));
    assert_eq!(m.score, 0);
    assert_eq!(m.frames, 0);
    assert!(!m.game_over);
    assert!(!m.had_coral);
}

#[test]
fn empty_start_is_not_game_over() {
    let mut m = model_with(conway(5, 5));
    m.tick(LIFE_PERIOD);
    assert!(!m.game_over);
    assert_eq!(m.frames, LIFE_PERIOD);
}

#[test]
fn life_updates_score_healthy_coral() {
    let mut c = conway(6, 6);
    for (x, y) in [(1, 1), (2, 1), (1, 2), (2, 2)] {
        c.set(x, y, Cell::Healthy);
    }
    let mut m = model_with(c);
    m.tick(1);
    assert_eq!(m.score, 0);
    assert!(m.had_coral);
    m.tick(LIFE_PERIOD);
    assert_eq!(m.score, 4);
    // The same step again changes nothing.
    m.tick(LIFE_PERIOD);
    assert_eq!(m.score, 4);
}

#[test]
fn reef_that_dies_out_ends_the_game_and_freezes() {
    let mut c = conway(5, 5);
    c.set(2, 2, Cell::Healthy);
    let mut m = model_with(c);
    m.tick(LIFE_PERIOD);
    // No healthy coral is left, but an unhealthy cell still is.
    assert_eq!(m.coral.census(), (0, 1, 0));
    assert!(!m.game_over);
    m.tick(LIFE_PERIOD * 2);
    assert_eq!(m.coral.census(), (0, 0, 0));
    assert!(m.game_over);
    let score = m.score;
    m.plant();
    m.move_player(Direction::Left);
    m.kill_disease();
    m.tick(LIFE_PERIOD * 3);
    assert_eq!(m.score, score);
    assert_eq!(m.frames, LIFE_PERIOD * 2);
    assert_eq!(m.player.x, 2);
}

#[test]
fn only_diseased_coral_left_is_not_game_over() {
    let mut c = conway(5, 5);
    c.set(0, 0, Cell::Diseased);
    let mut m = model_with(c);
    m.tick(1);
    assert!(m.had_coral);
    assert!(!m.game_over);
}

#[test]
fn classic_disease_step_seeds_a_fresh_infection() {
    let mut c = classic(5, 5);
    c.set(0, 0, Cell::Healthy);
    c.set(4, 4, Cell::Healthy);
    c.disease_step(0);
    assert_eq!(c.census(), (1, 0, 1));
    let mut none = classic_without_seeding(5, 5);
    none.set(0, 0, Cell::Healthy);
    none.disease_step(0);
    assert_eq!(none.census(), (1, 0, 0));
}

#[test]
fn seed_infection_picks_the_chosen_healthy_cell() {
    let r = CoralRules::default();
    let mut g = Grid::new(3, 3);
    g.set_cell(2, 0, Cell::Healthy);
    g.set_cell(1, 2, Cell::Healthy);
    r.seed_infection(&mut g, 9, 1);
    assert_eq!(g.cell(1, 2), Cell::Diseased);
    assert_eq!(g.age(1, 2), 9);
    assert_eq!(g.cell(2, 0), Cell::Healthy);
    let mut empty = Grid::new(2, 2);
    r.seed_infection(&mut empty, 9, 0);
    assert_eq!(empty.cell(0, 0), Cell::Empty);
}

#[test]
fn fallback_stamp_with_no_lines_has_width_zero() {
    let s = StampSet::from_loaded(Vec::new(), "");
    assert_eq!(s.len(), 1);
    assert_eq!(s.get(0).width, 0);
    assert_eq!(s.get(0).height, 0);
}

#[test]
fn neighbour_counts_partition_the_eight_neighbours() {
    let mut g = Grid::new(3, 3);
    g.set_cell(0, 0, Cell::Healthy);
    g.set_cell(1, 0, Cell::Unhealthy);
    g.set_cell(2, 0, Cell::Diseased);
    g.set_cell(2, 2, Cell::Diseased);
    let live = g.live_neighbors(1, 1);
    assert_eq!(live + g.neighbors_of(1, 1, Cell::Empty), 8);
    assert_eq!(
        g.neighbors_of(1, 1, Cell::Healthy) + g.neighbors_of(1, 1, Cell::Unhealthy)
            + g.neighbors_of(1, 1, Cell::Diseased),
        live
    );
    assert_eq!(live, 4);
}

#[test]
fn disease_period_seeds_an_infection() {
    let mut c = conway(5, 5);
    c.set(0, 0, Cell::Healthy);
    c.set(4, 4, Cell::Healthy);
    let mut m = model_with(c);
    m.tick(DISEASE_PERIOD);
    assert_eq!(m.coral.census(), (1, 0, 1));
    assert!(!m.game_over);
}

#[test]
fn planting_scores_and_kills_score_per_cell() {
    let mut m = model_with(conway(5, 5));
    m.plant();
    assert_eq!(m.score, 2);
    assert_eq!(m.coral.get(2, 2), Cell::Healthy);
    m.coral.set(1, 1, Cell::Diseased);
    m.coral.set(3, 3, Cell::Diseased);
    m.kill_disease();
    assert_eq!(m.score, 2 + 6);
}

#[test]
fn move_player_stays_on_the_board() {
    let mut m = model_with(conway(3, 3));
    for _ in 0..5 {
        m.move_player(Direction::Right);
        m.move_player(Direction::Down);
    }
    assert_eq!((m.player.x, m.player.y), (2, 2));
}

// ---- controller ----

#[test]
fn quit_keys_stop_the_game() {
    let mut m = model_with(conway(5, 5));
    assert!(!Controller::process(&[Key::Q], &[], &mut m));
    assert!(!Controller::process(&[Key::Other, Key::Esc], &[], &mut m));
    assert!(Controller::process(&[Key::W], &[], &mut m));
}

#[test]
fn presses_plant_and_held_keys_move() {
    let mut m = model_with(conway(5, 5));
    assert!(Controller::process(&[Key::Space], &[Key::W, Key::A, Key::Space], &mut m));
    assert_eq!(m.score, 2);
    assert_eq!(m.coral.get(2, 2), Cell::Healthy);
    assert_eq!((m.player.x, m.player.y), (1, 1));
    assert!(Controller::process(&[], &[Key::S, Key::D, Key::D], &mut m));
    assert_eq!((m.player.x, m.player.y), (3, 2));
}

#[test]
fn x_kills_disease_at_the_cursor() {
    let mut m = model_with(conway(5, 5));
    m.coral.set(2, 1, Cell::Diseased);
    assert!(Controller::process(&[Key::X], &[], &mut m));
    assert_eq!(m.coral.get(2, 1), Cell::Empty);
    assert_eq!(m.score, 3);
}

// ---- view geometry ----

#[test]
fn view_geometry() {
    assert_eq!(View::cell_position(0, 0), (1, 2));
    assert_eq!(View::cell_position(5, 3), (6, 5));
    assert_eq!(View::score_row(17), 20);
    assert_eq!(View::status_row(17), 23);
    assert_eq!(View::centered_col(80, 22), 29);
    assert_eq!(View::centered_col(10, 22), 0);
    assert_eq!(View::block_top(17, 19), 2);
    assert_eq!(View::block_top(30, 19), 7);
    assert!(View::controls_hint(true).contains("kill"));
    assert!(!View::controls_hint(false).contains("kill"));
}

#[test]
fn census_and_empty_cells_cover_the_board() {
    let mut c = conway(4, 3);
    c.set(0, 0, Cell::Healthy);
    c.set(1, 0, Cell::Unhealthy);
    c.set(2, 0, Cell::Diseased);
    c.set(3, 2, Cell::Healthy);
    let (h, u, d) = c.census();
    let empty = c.grid().iter().filter(|&&x| x == Cell::Empty).count();
    assert_eq!((h, u, d), (2, 1, 1));
    assert_eq!(h + u + d + empty, 12);
}
