use tondorf_ants::ai::turn as commands_of;
use tondorf_ants::{Ant, AntCargo, AntJob, Ants, Args, Object, Pair, Team, Turn};

/// Kinds of objects, as the upper half of their first byte tells them.
const ANT: u8 = 1;
const SUGAR: u8 = 2;
const ANT_WITH_SUGAR: u8 = 3;
const WASTE: u8 = 4;
const ANT_WITH_WASTE: u8 = 5;
const STONE: u8 = 0;

fn settings() -> Args {
    Args {
        team_name: "Rust_pirates".to_string(),
        ip: [127, 0, 0, 1],
        port: 5000,
        print_ants: false,
        gatherer_ants: None,
        offensive_ants: None,
        waste_mover_ants: None,
        ant_help: false,
        max_health: 10,
        default_jobs: true,
        random_jobs: false,
        hunt: false,
    }
}

fn ant(team: u8, id: u8, health: u8, kind: u8, pos: (u16, u16)) -> Object {
    Object { b1: Pair { upper: kind, lower: team }, b2: Pair { upper: id, lower: health }, pos }
}

fn piece(kind: u8, pos: (u16, u16)) -> Object {
    Object { b1: Pair { upper: kind, lower: 0 }, b2: Pair { upper: 0, lower: 0 }, pos }
}

fn snapshot_with_points(team_id: i16, points: [u16; 16], objects: Vec<Object>) -> Turn {
    let teams = (0..16)
        .map(|i| Team {
            id: i as i16,
            points: points[i],
            remaining_ants: 16,
            team_name: "................".to_string(),
        })
        .collect();
    Turn { team_id, teams, nr_of_objects: objects.len() as u16, objects }
}

fn snapshot(team_id: i16, objects: Vec<Object>) -> Turn {
    snapshot_with_points(team_id, [0; 16], objects)
}

fn all(job: AntJob) -> Vec<AntJob> {
    vec![job; 16]
}

fn default_jobs() -> Vec<AntJob> {
    let mut jobs = vec![AntJob::Gatherer; 7];
    jobs.extend_from_slice(&[AntJob::Offensive; 7]);
    jobs.extend_from_slice(&[AntJob::WasteMover; 2]);
    jobs
}

/// The ant `id` of the client's team and the positions of all its ants.
fn own(turn: &Turn, jobs: &[AntJob], id: usize) -> (Ant, Vec<(u16, u16)>) {
    let ants = Ants::from_turn(turn, None, jobs);
    (ants.ants[id], ants.ant_positions)
}

#[test]
fn a_roster_has_sixteen_ants_with_rising_ids() {
    let turns = [
        snapshot(0, vec![]),
        snapshot(4, vec![ant(4, 9, 5, ANT, (1, 1)), ant(4, 2, 5, ANT, (2, 2))]),
        snapshot(-3, vec![ant(4, 9, 5, ANT, (1, 1))]),
        snapshot(4, (0..16).rev().map(|id| ant(4, id, 7, ANT, (id as u16, 3))).collect()),
    ];
    for turn in &turns {
        for team in [None, Some(0), Some(4), Some(15), Some(-1), Some(16)] {
            let ants = Ants::from_turn(turn, team, &default_jobs());
            assert_eq!(ants.ants.len(), 16);
            for id in 0..16 {
                assert_eq!(ants.ants[id].id, id as u8);
            }
        }
    }
}

#[test]
fn a_roster_is_the_same_each_time_it_is_built() {
    let turn = snapshot(
        4,
        vec![ant(4, 9, 5, ANT_WITH_SUGAR, (1, 1)), piece(SUGAR, (8, 8)), ant(4, 2, 0, ANT, (2, 2))],
    );
    let first = Ants::from_turn(&turn, None, &default_jobs());
    let second = Ants::from_turn(&turn, None, &default_jobs());
    assert_eq!(first.ant_positions, second.ant_positions);
    for id in 0..16 {
        assert_eq!(first.ants[id].id, second.ants[id].id);
        assert_eq!(first.ants[id].pos, second.ants[id].pos);
        assert_eq!(first.ants[id].health, second.ants[id].health);
        assert_eq!(first.ants[id].cargo, second.ants[id].cargo);
        assert_eq!(first.ants[id].job, second.ants[id].job);
    }
}

#[test]
fn a_roster_shows_the_ants_of_the_table() {
    let turn = snapshot(
        4,
        vec![
            ant(4, 9, 5, ANT_WITH_SUGAR, (11, 12)),
            piece(SUGAR, (8, 8)),
            ant(3, 9, 6, ANT, (30, 30)),
            ant(4, 2, 15, ANT_WITH_WASTE, (21, 22)),
            ant(4, 0, 1, ANT, (31, 32)),
        ],
    );
    let ants = Ants::from_turn(&turn, None, &default_jobs());
    let nine = ants.ants[9];
    assert_eq!((nine.id, nine.pos, nine.health), (9, (11, 12), 5));
    assert_eq!(nine.cargo, Some(AntCargo::Sugar));
    assert_eq!(nine.job, Some(AntJob::Offensive));
    let two = ants.ants[2];
    assert_eq!((two.id, two.pos, two.health), (2, (21, 22), 15));
    assert_eq!(two.cargo, Some(AntCargo::ToxicWaste));
    assert_eq!(two.job, Some(AntJob::Gatherer));
    let zero = ants.ants[0];
    assert_eq!((zero.id, zero.pos, zero.health), (0, (31, 32), 1));
    assert_eq!(zero.cargo, None);
    assert_eq!(zero.job, Some(AntJob::Gatherer));
    assert_eq!(ants.ant_positions, vec![(11, 12), (21, 22), (31, 32)]);
}

#[test]
fn an_ant_that_the_table_does_not_show_is_dead_at_the_origin() {
    let turn = snapshot(4, vec![ant(4, 9, 5, ANT, (11, 12))]);
    let ants = Ants::from_turn(&turn, None, &default_jobs());
    for id in 0..16 {
        if id != 9 {
            let missing = ants.ants[id];
            assert_eq!(missing.id, id as u8);
            assert_eq!(missing.pos, (0, 0));
            assert_eq!(missing.health, 0);
            assert_eq!(missing.cargo, None);
            assert_eq!(missing.job, None);
        }
    }
}

#[test]
fn the_ants_of_another_team_have_no_job() {
    let turn = snapshot(4, vec![ant(4, 9, 5, ANT, (11, 12)), ant(3, 9, 6, ANT_WITH_SUGAR, (30, 30))]);
    let ants = Ants::from_turn(&turn, Some(3), &default_jobs());
    let nine = ants.ants[9];
    assert_eq!((nine.id, nine.pos, nine.health), (9, (30, 30), 6));
    assert_eq!(nine.cargo, Some(AntCargo::Sugar));
    assert_eq!(nine.job, None);
    assert_eq!(ants.ant_positions, vec![(30, 30)]);
    let own = Ants::from_turn(&turn, Some(4), &default_jobs());
    assert_eq!(own.ants[9].job, Some(AntJob::Offensive));
}

#[test]
fn what_is_no_ant_is_not_in_a_roster() {
    let turn = snapshot(0, vec![piece(SUGAR, (8, 8)), piece(WASTE, (9, 9)), piece(STONE, (7, 7))]);
    let ants = Ants::from_turn(&turn, None, &default_jobs());
    assert!(ants.ant_positions.is_empty());
    for id in 0..16 {
        assert_eq!(ants.ants[id].health, 0);
    }
}

#[test]
fn of_two_objects_for_one_ant_the_first_counts() {
    let turn = snapshot(
        4,
        vec![ant(4, 9, 5, ANT, (11, 12)), ant(4, 9, 8, ANT_WITH_SUGAR, (40, 40))],
    );
    let ants = Ants::from_turn(&turn, None, &default_jobs());
    assert_eq!(ants.ants.len(), 16);
    let nine = ants.ants[9];
    assert_eq!((nine.pos, nine.health, nine.cargo), ((11, 12), 5, None));
    assert_eq!(ants.ant_positions, vec![(11, 12), (40, 40)]);
}

#[test]
fn the_positions_of_all_objects_are_listed_in_their_order() {
    let turn = snapshot(
        4,
        vec![ant(4, 9, 5, ANT, (11, 12)), piece(SUGAR, (8, 8)), ant(3, 9, 6, ANT, (30, 30))],
    );
    assert_eq!(turn.object_positions(), vec![(11, 12), (8, 8), (30, 30)]);
    assert_eq!(snapshot(0, vec![]).object_positions(), vec![]);
}

#[test]
fn a_turn_is_well_formed_with_sixteen_teams_in_order() {
    let mut turn = snapshot(4, vec![ant(4, 9, 5, ANT, (11, 12))]);
    assert!(turn.is_wf());
    turn.nr_of_objects = 2;
    assert!(!turn.is_wf());
    turn.nr_of_objects = 1;
    turn.objects[0].b2.upper = 16;
    assert!(!turn.is_wf());
    turn.objects[0].b2.upper = 15;
    assert!(turn.is_wf());
    turn.teams[3].id = 4;
    assert!(!turn.is_wf());
    turn.teams[3].id = 3;
    turn.teams.pop();
    assert!(!turn.is_wf());
}

#[test]
fn enemy_ants_come_team_by_team_and_by_id() {
    let turn = snapshot(
        4,
        vec![
            ant(15, 1, 6, ANT, (1, 0)),
            ant(7, 3, 6, ANT, (2, 0)),
            ant(4, 0, 6, ANT, (3, 0)),
            ant(0, 5, 6, ANT, (4, 0)),
            ant(7, 2, 6, ANT, (5, 0)),
            ant(0, 4, 6, ANT, (6, 0)),
        ],
    );
    let enemies = turn.enemy_ants(None, &default_jobs());
    let places: Vec<(u16, u16)> = enemies.iter().map(|ant| ant.pos).collect();
    assert_eq!(places, vec![(6, 0), (4, 0), (5, 0), (2, 0), (1, 0)]);
    for enemy in &enemies {
        assert_eq!(enemy.job, None);
    }
}

#[test]
fn enemy_ants_are_alive_and_not_above_the_threshold() {
    let turn = snapshot(
        4,
        vec![
            ant(1, 0, 0, ANT, (1, 0)),
            ant(1, 1, 1, ANT, (2, 0)),
            ant(1, 2, 3, ANT, (3, 0)),
            ant(1, 3, 4, ANT, (4, 0)),
            ant(1, 4, 15, ANT, (5, 0)),
        ],
    );
    let ids = |threshold: Option<u8>| -> Vec<u8> {
        turn.enemy_ants(threshold, &default_jobs()).iter().map(|ant| ant.id).collect()
    };
    assert_eq!(ids(None), vec![1, 2, 3, 4]);
    assert_eq!(ids(Some(3)), vec![1, 2]);
    assert_eq!(ids(Some(4)), vec![1, 2, 3]);
    assert_eq!(ids(Some(0)), vec![]);
    assert_eq!(ids(Some(255)), vec![1, 2, 3, 4]);
}

#[test]
fn enemy_ants_are_those_of_all_teams_where_the_own_team_is_none_of_them() {
    let turn = snapshot(-1, vec![ant(0, 0, 6, ANT, (1, 0)), ant(15, 15, 6, ANT, (2, 0))]);
    assert_eq!(turn.enemy_ants(None, &default_jobs()).len(), 2);
    assert_eq!(snapshot(0, vec![]).enemy_ants(None, &default_jobs()).len(), 0);
}

#[test]
fn nothing_is_nearest_where_there_is_nothing() {
    let turn = snapshot(0, vec![]);
    let none: Vec<Object> = vec![];
    assert_eq!(turn.nearest((5, 5), &none), None);
    assert_eq!(turn.nearest_sugar_coordinates((5, 5)), None);
    assert_eq!(turn.nearest_toxic_waste_coordinates((5, 5)), None);
}

#[test]
fn the_nearest_of_several_is_found() {
    let turn = snapshot(0, vec![]);
    let things = vec![piece(STONE, (50, 50)), piece(STONE, (12, 10)), piece(STONE, (10, 13))];
    assert_eq!(turn.nearest((10, 10), &things), Some((12, 10)));
    assert_eq!(turn.nearest((10, 14), &things), Some((10, 13)));
    assert_eq!(turn.nearest((60, 60), &things), Some((50, 50)));
}

#[test]
fn of_two_that_are_equally_near_the_first_is_nearest() {
    let turn = snapshot(0, vec![]);
    let things = vec![piece(STONE, (13, 10)), piece(STONE, (10, 13)), piece(STONE, (7, 10))];
    assert_eq!(turn.nearest((10, 10), &things), Some((13, 10)));
    let rounded = vec![piece(STONE, (11, 11)), piece(STONE, (11, 10))];
    assert_eq!(turn.nearest((10, 10), &rounded), Some((11, 11)));
}

#[test]
fn the_nearest_may_be_as_far_as_can_be() {
    let turn = snapshot(0, vec![]);
    let things = vec![piece(STONE, (65535, 65535)), piece(STONE, (65535, 0))];
    assert_eq!(turn.nearest((0, 0), &things), Some((65535, 65535)));
}

#[test]
fn ants_are_things_with_a_position_too() {
    let turn = snapshot(0, vec![]);
    let ants = vec![Ant::new(0, (9, 9), 1, None, None), Ant::new(1, (4, 4), 1, None, None)];
    assert_eq!(turn.nearest((5, 5), &ants), Some((4, 4)));
}

#[test]
fn sugar_and_waste_are_pieces_that_no_ant_holds() {
    let turn = snapshot(
        0,
        vec![
            ant(1, 0, 5, ANT_WITH_SUGAR, (6, 5)),
            ant(1, 1, 5, ANT_WITH_WASTE, (5, 6)),
            piece(STONE, (5, 4)),
            piece(WASTE, (5, 25)),
            piece(SUGAR, (20, 5)),
            piece(SUGAR, (40, 5)),
            piece(WASTE, (5, 45)),
        ],
    );
    assert_eq!(turn.nearest_sugar_coordinates((5, 5)), Some((20, 5)));
    assert_eq!(turn.nearest_toxic_waste_coordinates((5, 5)), Some((5, 25)));
    assert_eq!(turn.nearest_sugar_coordinates((39, 5)), Some((40, 5)));
    assert_eq!(turn.nearest_toxic_waste_coordinates((5, 40)), Some((5, 45)));
}

#[test]
fn the_leading_base_is_that_of_the_enemy_with_the_most_points() {
    let mut points = [0; 16];
    points[3] = 50;
    points[9] = 70;
    points[12] = 60;
    let turn = snapshot_with_points(0, points, vec![]);
    assert_eq!(turn.leading_team_base_coordinates(&turn), (700, 900));
}

#[test]
fn the_own_team_does_not_lead() {
    let mut points = [0; 16];
    points[3] = 50;
    points[9] = 70;
    let turn = snapshot_with_points(9, points, vec![]);
    assert_eq!(turn.leading_team_base_coordinates(&turn), (700, 100));
}

#[test]
fn of_two_leading_teams_the_first_leads() {
    let mut points = [0; 16];
    points[5] = 70;
    points[9] = 70;
    points[2] = 69;
    let turn = snapshot_with_points(0, points, vec![]);
    assert_eq!(turn.leading_team_base_coordinates(&turn), (900, 300));
}

#[test]
fn the_first_enemy_leads_where_no_enemy_has_a_point() {
    let turn = snapshot(0, vec![]);
    assert_eq!(turn.leading_team_base_coordinates(&turn), (300, 100));
    let mut points = [0; 16];
    points[6] = 1000;
    let alone = snapshot_with_points(6, points, vec![]);
    assert_eq!(alone.leading_team_base_coordinates(&alone), (100, 100));
    let last = snapshot(15, vec![]);
    assert_eq!(last.leading_team_base_coordinates(&last), (100, 100));
    let none_of_them = snapshot(-1, vec![]);
    assert_eq!(none_of_them.leading_team_base_coordinates(&none_of_them), (100, 100));
}

#[test]
fn an_ant_with_waste_goes_to_the_first_enemy_where_no_enemy_has_a_point() {
    let turn = snapshot(
        0,
        vec![ant(0, 0, 10, ANT_WITH_WASTE, (500, 500)), piece(STONE, (499, 499))],
    );
    let jobs = all(AntJob::Gatherer);
    let (carrier, positions) = own(&turn, &jobs, 0);
    assert_eq!(carrier.move_direction((300, 100)), 1);
    assert_eq!(carrier.move_direction((100, 300)), 1);
    assert_eq!(carrier.calc_move(&turn, &positions, &settings(), &jobs), 1);
    let east = snapshot(
        0,
        vec![ant(0, 0, 10, ANT_WITH_WASTE, (200, 200)), piece(STONE, (201, 199))],
    );
    let (carrier, positions) = own(&east, &jobs, 0);
    assert_eq!(carrier.move_direction((300, 100)), 3);
    assert_eq!(carrier.move_direction((100, 300)), 7);
    assert_eq!(carrier.calc_move(&east, &positions, &settings(), &jobs), 3);
}

#[test]
fn a_free_tile_is_taken_whatever_is_drawn() {
    let turn = snapshot(0, vec![ant(0, 0, 10, ANT, (50, 50)), ant(0, 1, 10, ANT, (51, 51))]);
    let (walker, positions) = own(&turn, &default_jobs(), 0);
    for first in [1, 2, 3, 4, 6, 7, 8] {
        assert_eq!(walker.settle_direction(first, &[9; 9], &positions, &turn), first);
    }
    assert_eq!(walker.settle_direction(6, &[], &positions, &turn), 6);
}

#[test]
fn a_tile_with_an_ant_of_the_team_is_left_for_the_first_free_draw() {
    let turn = snapshot(
        0,
        vec![
            ant(0, 0, 10, ANT, (50, 50)),
            ant(0, 1, 10, ANT, (51, 51)),
            ant(0, 2, 10, ANT, (50, 51)),
            ant(0, 3, 10, ANT, (49, 49)),
        ],
    );
    let (walker, positions) = own(&turn, &default_jobs(), 0);
    assert_eq!(walker.settle_direction(9, &[8, 1, 4, 2, 2, 2, 2, 2, 2], &positions, &turn), 4);
    assert_eq!(walker.settle_direction(9, &[3, 1, 4, 2, 2, 2, 2, 2, 2], &positions, &turn), 3);
    assert_eq!(walker.settle_direction(8, &[9, 1, 8, 9, 1, 8, 9, 1, 7], &positions, &turn), 7);
}

#[test]
fn the_last_draw_stands_whether_its_tile_is_free_or_not() {
    let turn = snapshot(
        0,
        vec![
            ant(0, 0, 10, ANT, (50, 50)),
            ant(0, 1, 10, ANT, (51, 51)),
            ant(0, 2, 10, ANT, (50, 51)),
            ant(0, 3, 10, ANT, (49, 49)),
        ],
    );
    let (walker, positions) = own(&turn, &default_jobs(), 0);
    assert_eq!(walker.settle_direction(9, &[8, 1, 8, 1, 8, 1, 8, 1, 8], &positions, &turn), 8);
    assert_eq!(walker.settle_direction(9, &[8, 1, 8, 1, 8, 1, 8, 1, 1], &positions, &turn), 1);
    assert_eq!(walker.settle_direction(9, &[8], &positions, &turn), 8);
}

#[test]
fn an_ant_stands_in_its_own_way_where_it_is_at_its_target() {
    let turn = snapshot(0, vec![ant(0, 0, 10, ANT, (50, 50))]);
    let (walker, positions) = own(&turn, &default_jobs(), 0);
    assert_eq!(walker.move_direction((50, 50)), 5);
    assert_eq!(walker.settle_direction(5, &[2, 3, 3, 3, 3, 3, 3, 3, 3], &positions, &turn), 2);
    let moved = walker.get_direction((50, 50), &positions, &turn);
    assert!((1..=8).contains(&moved));
}

#[test]
fn an_ant_with_cargo_only_steps_onto_a_tile_with_an_object() {
    let turn = snapshot(
        0,
        vec![
            ant(0, 0, 10, ANT_WITH_SUGAR, (50, 50)),
            piece(STONE, (51, 50)),
            ant(1, 0, 10, ANT, (50, 49)),
            ant(0, 1, 10, ANT, (49, 50)),
        ],
    );
    let (carrier, positions) = own(&turn, &default_jobs(), 0);
    // North is empty, east holds a stone, south an enemy ant, west an ant of the team.
    assert_eq!(carrier.settle_direction(8, &[6, 2, 2, 2, 2, 2, 2, 2, 2], &positions, &turn), 6);
    assert_eq!(carrier.settle_direction(8, &[7, 9, 2, 6, 6, 6, 6, 6, 6], &positions, &turn), 2);
    assert_eq!(carrier.settle_direction(4, &[8, 3, 1, 6, 2, 2, 2, 2, 2], &positions, &turn), 6);
    assert_eq!(carrier.settle_direction(6, &[8; 9], &positions, &turn), 6);
    let empty_handed = Ant::new(0, (50, 50), 10, None, Some(AntJob::Gatherer));
    assert_eq!(empty_handed.settle_direction(8, &[6; 9], &positions, &turn), 8);
    assert_eq!(empty_handed.settle_direction(4, &[6; 9], &positions, &turn), 6);
}

#[test]
fn a_step_over_the_edge_of_the_board_stays_where_the_ant_stands() {
    let turn = snapshot(0, vec![ant(0, 0, 10, ANT, (0, 0))]);
    let (walker, positions) = own(&turn, &default_jobs(), 0);
    // South-west of the origin is the origin, where the ant itself stands.
    assert_eq!(walker.settle_direction(1, &[4, 2, 6, 8, 8, 8, 8, 8, 8], &positions, &turn), 6);
}

#[test]
fn a_direction_by_chance_is_one_of_the_eight_that_move() {
    let turn = snapshot(0, vec![ant(0, 0, 10, ANT, (50, 50)), ant(0, 1, 10, ANT, (51, 51))]);
    let (walker, positions) = own(&turn, &default_jobs(), 0);
    let mut seen = [false; 10];
    for _ in 0..400 {
        let direction = walker.get_direction((60, 60), &positions, &turn);
        assert!((1..=8).contains(&direction));
        seen[direction as usize] = true;
    }
    assert!(seen.iter().filter(|&&taken| taken).count() > 1);
    assert!(!seen[9]);
}

#[test]
fn a_free_way_to_the_target_is_taken() {
    let turn = snapshot(0, vec![ant(0, 0, 10, ANT, (50, 50)), ant(0, 1, 10, ANT, (51, 51))]);
    let (walker, positions) = own(&turn, &default_jobs(), 0);
    for _ in 0..20 {
        assert_eq!(walker.get_direction((60, 50), &positions, &turn), 6);
        assert_eq!(walker.get_direction((50, 0), &positions, &turn), 2);
        assert_eq!(walker.get_direction((0, 0), &positions, &turn), 1);
    }
}

#[test]
fn a_gatherer_without_sugar_in_sight_stays() {
    let turn = snapshot(0, vec![ant(0, 0, 10, ANT, (10, 10))]);
    let jobs = all(AntJob::Gatherer);
    let (gatherer, positions) = own(&turn, &jobs, 0);
    assert_eq!(gatherer.calc_move(&turn, &positions, &settings(), &jobs), 5);
    assert_eq!(gatherer.calc_gatherer_move(&turn, &positions, &settings(), &jobs), 5);
    assert_eq!(commands_of(&turn, &settings(), &jobs)[0], 5);
}

#[test]
fn a_weak_gatherer_north_east_of_its_base_goes_south_west() {
    let turn = snapshot(0, vec![ant(0, 0, 3, ANT, (110, 110))]);
    let jobs = all(AntJob::Gatherer);
    let (gatherer, positions) = own(&turn, &jobs, 0);
    assert_eq!(gatherer.calc_move(&turn, &positions, &settings(), &jobs), 1);
    assert_eq!(commands_of(&turn, &settings(), &jobs)[0], 1);
}

#[test]
fn a_gatherer_goes_north_to_sugar_in_the_north() {
    let turn = snapshot(0, vec![ant(0, 0, 10, ANT, (5, 5)), piece(SUGAR, (5, 8))]);
    let jobs = all(AntJob::Gatherer);
    let (gatherer, positions) = own(&turn, &jobs, 0);
    assert_eq!(gatherer.calc_move(&turn, &positions, &settings(), &jobs), 8);
    assert_eq!(commands_of(&turn, &settings(), &jobs)[0], 8);
}

#[test]
fn a_gatherer_goes_to_the_nearest_sugar() {
    let turn = snapshot(
        0,
        vec![
            piece(SUGAR, (5, 80)),
            ant(0, 0, 10, ANT, (5, 5)),
            piece(SUGAR, (9, 5)),
            piece(WASTE, (5, 6)),
            ant(1, 0, 10, ANT_WITH_SUGAR, (4, 5)),
        ],
    );
    let jobs = all(AntJob::Gatherer);
    let (gatherer, positions) = own(&turn, &jobs, 0);
    assert_eq!(gatherer.calc_move(&turn, &positions, &settings(), &jobs), 6);
}

#[test]
fn an_offensive_ant_goes_for_the_enemy_and_not_for_the_sugar() {
    let turn = snapshot(
        0,
        vec![ant(0, 0, 10, ANT, (50, 50)), ant(1, 0, 2, ANT, (51, 50)), piece(SUGAR, (50, 45))],
    );
    let jobs = all(AntJob::Offensive);
    let (attacker, positions) = own(&turn, &jobs, 0);
    let mut args = settings();
    args.max_health = 10;
    assert_eq!(attacker.move_direction((51, 50)), 6);
    assert_eq!(attacker.calc_move(&turn, &positions, &args, &jobs), 6);
    assert_eq!(attacker.calc_offensive_move(&turn, &positions, &args, &jobs), 6);
    assert_eq!(commands_of(&turn, &args, &jobs)[0], 6);
}

#[test]
fn an_offensive_ant_leaves_enemies_with_too_much_health_alone() {
    let turn = snapshot(
        0,
        vec![
            ant(0, 0, 10, ANT, (50, 50)),
            ant(1, 0, 11, ANT, (51, 50)),
            ant(2, 0, 10, ANT, (50, 90)),
            piece(SUGAR, (50, 45)),
        ],
    );
    let jobs = all(AntJob::Offensive);
    let (attacker, positions) = own(&turn, &jobs, 0);
    assert_eq!(attacker.calc_move(&turn, &positions, &settings(), &jobs), 8);
    let mut args = settings();
    args.max_health = 9;
    assert_eq!(attacker.calc_move(&turn, &positions, &args, &jobs), 2);
    args.max_health = 11;
    assert_eq!(attacker.calc_move(&turn, &positions, &args, &jobs), 6);
}

#[test]
fn an_offensive_ant_without_an_enemy_gathers() {
    let turn = snapshot(0, vec![ant(0, 0, 10, ANT, (50, 50)), piece(SUGAR, (40, 60))]);
    let jobs = all(AntJob::Offensive);
    let (attacker, positions) = own(&turn, &jobs, 0);
    assert_eq!(attacker.calc_move(&turn, &positions, &settings(), &jobs), 7);
    let nothing = snapshot(0, vec![ant(0, 0, 10, ANT, (50, 50))]);
    assert_eq!(attacker.calc_move(&nothing, &positions, &settings(), &jobs), 5);
}

#[test]
fn a_waste_mover_goes_for_the_waste_first() {
    let turn = snapshot(
        0,
        vec![
            ant(0, 0, 10, ANT, (50, 50)),
            ant(1, 0, 2, ANT, (51, 50)),
            piece(SUGAR, (50, 55)),
            piece(WASTE, (10, 10)),
        ],
    );
    let jobs = all(AntJob::WasteMover);
    let (mover, positions) = own(&turn, &jobs, 0);
    assert_eq!(mover.calc_move(&turn, &positions, &settings(), &jobs), 1);
    assert_eq!(mover.calc_waste_mover_move(&turn, &positions, &settings(), &jobs), 1);
}

#[test]
fn a_waste_mover_without_waste_attacks_and_without_an_enemy_gathers() {
    let with_enemy = snapshot(
        0,
        vec![ant(0, 0, 10, ANT, (50, 50)), ant(1, 0, 2, ANT, (51, 50)), piece(SUGAR, (50, 55))],
    );
    let jobs = all(AntJob::WasteMover);
    let (mover, positions) = own(&with_enemy, &jobs, 0);
    assert_eq!(mover.calc_move(&with_enemy, &positions, &settings(), &jobs), 6);
    let with_sugar = snapshot(0, vec![ant(0, 0, 10, ANT, (50, 50)), piece(SUGAR, (50, 55))]);
    assert_eq!(mover.calc_move(&with_sugar, &positions, &settings(), &jobs), 8);
    let with_nothing = snapshot(0, vec![ant(0, 0, 10, ANT, (50, 50))]);
    assert_eq!(mover.calc_move(&with_nothing, &positions, &settings(), &jobs), 5);
}

#[test]
fn a_gatherer_hunts_weak_enemies_only_where_it_is_told_to() {
    let turn = snapshot(
        0,
        vec![
            ant(0, 0, 10, ANT, (50, 50)),
            ant(1, 0, 4, ANT, (52, 50)),
            ant(1, 1, 3, ANT, (50, 60)),
            piece(SUGAR, (45, 50)),
        ],
    );
    let jobs = all(AntJob::Gatherer);
    let (gatherer, positions) = own(&turn, &jobs, 0);
    let mut args = settings();
    assert_eq!(gatherer.calc_move(&turn, &positions, &args, &jobs), 4);
    args.hunt = true;
    assert_eq!(gatherer.calc_move(&turn, &positions, &args, &jobs), 8);
}

#[test]
fn a_dead_ant_stays() {
    let turn = snapshot(
        0,
        vec![ant(0, 0, 0, ANT, (50, 50)), piece(SUGAR, (50, 55)), ant(1, 0, 2, ANT, (51, 50))],
    );
    for jobs in [all(AntJob::Gatherer), all(AntJob::Offensive), all(AntJob::WasteMover)] {
        let (dead, positions) = own(&turn, &jobs, 0);
        assert_eq!(dead.calc_move(&turn, &positions, &settings(), &jobs), 5);
        let (missing, _) = own(&turn, &jobs, 7);
        assert_eq!(missing.calc_move(&turn, &positions, &settings(), &jobs), 5);
    }
}

#[test]
fn a_weak_ant_goes_home_whatever_its_job_is() {
    let turn = snapshot(
        8,
        vec![
            ant(8, 0, 1, ANT, (890, 905)),
            ant(8, 1, 2, ANT, (900, 800)),
            ant(8, 2, 3, ANT, (950, 900)),
            ant(8, 3, 3, ANT, (905, 895)),
            piece(SUGAR, (890, 890)),
            ant(1, 0, 2, ANT, (890, 800)),
            piece(WASTE, (890, 850)),
        ],
    );
    for jobs in [all(AntJob::Gatherer), all(AntJob::Offensive), all(AntJob::WasteMover)] {
        let commands = commands_of(&turn, &settings(), &jobs);
        assert_eq!(&commands[..4], &[3, 8, 4, 7]);
        for id in 0..4 {
            let (weak, positions) = own(&turn, &jobs, id);
            assert_eq!(commands[id], weak.move_direction((900, 900)));
            assert_eq!(weak.calc_move(&turn, &positions, &settings(), &jobs), commands[id]);
        }
    }
}

#[test]
fn a_weak_ant_whose_way_home_is_taken_goes_another_way() {
    let turn = snapshot(0, vec![ant(0, 0, 2, ANT, (110, 110)), ant(0, 1, 10, ANT, (109, 109))]);
    let jobs = all(AntJob::Gatherer);
    let (weak, positions) = own(&turn, &jobs, 0);
    assert_eq!(weak.move_direction((100, 100)), 1);
    assert_eq!(weak.settle_direction(1, &[1, 1, 9, 1, 1, 1, 1, 1, 1], &positions, &turn), 9);
    for _ in 0..50 {
        let command = weak.calc_move(&turn, &positions, &settings(), &jobs);
        assert!((1..=8).contains(&command));
    }
}

#[test]
fn an_ant_with_waste_goes_to_the_leading_base() {
    let mut points = [0; 16];
    points[3] = 50;
    points[0] = 90;
    let turn = snapshot_with_points(
        0,
        points,
        vec![ant(0, 0, 10, ANT_WITH_WASTE, (500, 500)), piece(STONE, (501, 499))],
    );
    for jobs in [all(AntJob::Gatherer), all(AntJob::Offensive), all(AntJob::WasteMover)] {
        let (carrier, positions) = own(&turn, &jobs, 0);
        assert_eq!(carrier.cargo, Some(AntCargo::ToxicWaste));
        assert_eq!(carrier.calc_move(&turn, &positions, &settings(), &jobs), 3);
    }
}

#[test]
fn a_gatherer_with_sugar_goes_to_the_beacon_from_afar() {
    let turn = snapshot(
        0,
        vec![ant(0, 0, 10, ANT_WITH_SUGAR, (105, 200)), piece(STONE, (106, 199)), piece(SUGAR, (105, 230))],
    );
    let jobs = all(AntJob::Gatherer);
    let (carrier, positions) = own(&turn, &jobs, 0);
    assert_eq!(carrier.move_direction((100, 100)), 1);
    assert_eq!(carrier.move_direction((110, 110)), 3);
    assert_eq!(carrier.calc_move(&turn, &positions, &settings(), &jobs), 3);
}

#[test]
fn a_gatherer_with_sugar_goes_to_the_base_from_nearby() {
    let turn = snapshot(
        0,
        vec![ant(0, 0, 10, ANT_WITH_SUGAR, (105, 110)), piece(STONE, (104, 109))],
    );
    let jobs = all(AntJob::Gatherer);
    let (carrier, positions) = own(&turn, &jobs, 0);
    assert_eq!(carrier.move_direction((100, 100)), 1);
    assert_eq!(carrier.move_direction((110, 110)), 6);
    assert_eq!(carrier.calc_move(&turn, &positions, &settings(), &jobs), 1);
}

#[test]
fn a_gatherer_with_sugar_takes_the_beacon_from_more_than_twenty_away() {
    let jobs = all(AntJob::Gatherer);
    // 20 away from the base at (100, 100): the base itself, straight north.
    let near = snapshot(0, vec![ant(0, 0, 10, ANT_WITH_SUGAR, (100, 120)), piece(STONE, (100, 119))]);
    let (carrier, positions) = own(&near, &jobs, 0);
    assert_eq!(carrier.calc_move(&near, &positions, &settings(), &jobs), 2);
    // 21 away: the beacon at (110, 110), to the south-east.
    let far = snapshot(0, vec![ant(0, 0, 10, ANT_WITH_SUGAR, (100, 121)), piece(STONE, (101, 120))]);
    let (carrier, positions) = own(&far, &jobs, 0);
    assert_eq!(carrier.calc_move(&far, &positions, &settings(), &jobs), 3);
}

#[test]
fn every_turn_has_sixteen_commands_that_are_directions() {
    let mut points = [0; 16];
    points[7] = 12;
    let mut objects = vec![
        piece(SUGAR, (300, 300)),
        piece(WASTE, (310, 310)),
        piece(STONE, (1, 1)),
        ant(1, 0, 2, ANT, (305, 305)),
        ant(7, 3, 9, ANT_WITH_SUGAR, (320, 300)),
    ];
    for id in 0..14 {
        let kind = [ANT, ANT_WITH_SUGAR, ANT_WITH_WASTE][id as usize % 3];
        objects.push(ant(2, id, id, kind, (300 + (id as u16 % 4), 300 + (id as u16 / 4))));
    }
    let turn = snapshot_with_points(2, points, objects);
    for hunt in [false, true] {
        let mut args = settings();
        args.hunt = hunt;
        for jobs in [default_jobs(), all(AntJob::WasteMover)] {
            for _ in 0..20 {
                let commands = commands_of(&turn, &args, &jobs);
                assert_eq!(commands.len(), 16);
                for command in commands {
                    assert!((1..=9).contains(&command));
                }
                assert_eq!(commands[0], 5);
                assert_eq!(commands[14], 5);
                assert_eq!(commands[15], 5);
            }
        }
    }
}

#[test]
fn a_turn_without_ants_of_the_team_has_sixteen_commands_to_stay() {
    let objects = vec![ant(1, 0, 9, ANT, (5, 5)), piece(SUGAR, (6, 6))];
    assert_eq!(commands_of(&snapshot(0, objects.clone()), &settings(), &default_jobs()), [5; 16]);
    assert_eq!(commands_of(&snapshot(-1, objects.clone()), &settings(), &default_jobs()), [5; 16]);
    assert_eq!(commands_of(&snapshot(16, objects.clone()), &settings(), &default_jobs()), [5; 16]);
    assert_eq!(commands_of(&snapshot(3, vec![]), &settings(), &default_jobs()), [5; 16]);
}

#[test]
fn the_commands_stand_in_the_order_of_the_ids() {
    let turn = snapshot(
        0,
        vec![
            ant(0, 5, 9, ANT, (200, 200)),
            ant(0, 2, 9, ANT, (400, 200)),
            piece(SUGAR, (300, 200)),
        ],
    );
    let commands = commands_of(&turn, &settings(), &all(AntJob::Gatherer));
    let mut expected = [5; 16];
    expected[5] = 6;
    expected[2] = 4;
    assert_eq!(commands, expected);
}

#[test]
fn ants_are_compared_by_their_ids() {
    let three = Ant::new(3, (1, 1), 10, None, Some(AntJob::Gatherer));
    let other_three = Ant::new(3, (9, 9), 0, Some(AntCargo::Sugar), None);
    let four = Ant::new(4, (1, 1), 10, None, Some(AntJob::Gatherer));
    assert!(three == other_three);
    assert!(three != four);
    assert!(three < four);
    assert!(four > three);
    assert!(three <= other_three);
    assert_eq!(three.partial_cmp(&four), Some(std::cmp::Ordering::Less));
    assert_eq!(four.partial_cmp(&three), Some(std::cmp::Ordering::Greater));
    assert_eq!(three.partial_cmp(&other_three), Some(std::cmp::Ordering::Equal));
}

#[test]
fn an_ant_that_does_not_go_home_needs_no_team_that_the_client_can_be() {
    let turn = snapshot(-1, vec![piece(SUGAR, (50, 40)), piece(STONE, (51, 51))]);
    let jobs = all(AntJob::Gatherer);
    let carrier = Ant::new(0, (50, 50), 10, Some(AntCargo::ToxicWaste), None);
    // No team has a point and none is the client's: the first of them leads,
    // and its base at (100, 100) lies in the north-east.
    assert_eq!(turn.leading_team_base_coordinates(&turn), (100, 100));
    assert_eq!(carrier.move_direction((100, 100)), 9);
    assert_eq!(carrier.calc_move(&turn, &[], &settings(), &jobs), 9);
    let gatherer = Ant::new(1, (50, 50), 10, None, Some(AntJob::Gatherer));
    assert_eq!(gatherer.calc_move(&turn, &[], &settings(), &jobs), 2);
    assert_eq!(gatherer.calc_gatherer_move(&turn, &[], &settings(), &jobs), 2);
    assert_eq!(gatherer.calc_offensive_move(&turn, &[], &settings(), &jobs), 2);
    assert_eq!(gatherer.calc_waste_mover_move(&turn, &[], &settings(), &jobs), 2);
    let dead = Ant::new(2, (50, 50), 0, Some(AntCargo::Sugar), None);
    assert_eq!(dead.calc_move(&turn, &[], &settings(), &jobs), 5);
}

#[test]
fn a_refused_tile_is_left_for_a_free_one_or_after_nine_tries() {
    // Ants of the team stand on all eight tiles around the walker but the one in the west.
    let mut objects = vec![ant(0, 0, 10, ANT, (50, 50))];
    let around = [(49, 49), (50, 49), (51, 49), (51, 50), (49, 51), (50, 51), (51, 51)];
    for (i, place) in around.iter().enumerate() {
        objects.push(ant(0, 1 + i as u8, 10, ANT, *place));
    }
    let turn = snapshot(0, objects);
    let (walker, positions) = own(&turn, &default_jobs(), 0);
    assert_eq!(walker.get_direction((40, 50), &positions, &turn), 4);
    let mut west = 0;
    for _ in 0..300 {
        let direction = walker.get_direction((60, 50), &positions, &turn);
        assert!((1..=8).contains(&direction));
        if direction == 4 {
            west += 1;
        }
    }
    // Eight draws are tried before the ninth stands: the free tile is found most of the time.
    assert!(west > 150);
}
