//! Ant control: where an ant goes in the next turn.

use crate::ants::{direction_towards, lemma_roster_shape, positions_of_team, Ant, Ants};
use crate::cli::Args;
use crate::jobs::AntJob;
use crate::random::random_in;
use crate::utils::{distance, get_distance, next_point, next_tile, valid_direction};
use crate::world::{
    AntCargo, Object, Position, Turn, HOME_BASE_BEACONS, HOME_BASE_COORDINATES,
};
use vstd::pervasive::unreached;
use vstd::prelude::*;

verus! {

/// The positions of a sequence of things, in their order.
pub open spec fn positions_of<T: Position>(things: Seq<T>) -> Seq<(u16, u16)> {
    things.map_values(|thing: T| thing.position())
}

/// Index of the candidate that is nearest to `pos`; of several that are equally
/// near, the first. None where there is no candidate.
pub open spec fn nearest_index(pos: (u16, u16), candidates: Seq<(u16, u16)>) -> Option<int>
    decreases candidates.len(),
{
    if candidates.len() == 0 {
        None
    } else {
        let before = nearest_index(pos, candidates.drop_last());
        if before is Some && distance(pos, candidates[before->0]) <= distance(
            pos,
            candidates.last(),
        ) {
            before
        } else {
            Some(candidates.len() - 1)
        }
    }
}

/// The candidate that is nearest to `pos`.
pub open spec fn nearest_of(pos: (u16, u16), candidates: Seq<(u16, u16)>) -> Option<(u16, u16)> {
    match nearest_index(pos, candidates) {
        Some(k) => Some(candidates[k]),
        None => None,
    }
}

/// There is a nearest candidate wherever there is a candidate. No candidate is
/// nearer than it, and every candidate before it is further away.
pub proof fn lemma_nearest_index(pos: (u16, u16), candidates: Seq<(u16, u16)>)
    ensures
        match nearest_index(pos, candidates) {
            None => candidates.len() == 0,
            Some(k) => {
                &&& 0 <= k < candidates.len()
                &&& forall|j: int|
                    0 <= j < candidates.len() ==> distance(pos, candidates[k]) <= distance(
                        pos,
                        #[trigger] candidates[j],
                    )
                &&& forall|j: int|
                    0 <= j < k ==> distance(pos, candidates[k]) < distance(
                        pos,
                        #[trigger] candidates[j],
                    )
            },
        },
    decreases candidates.len(),
{
    if candidates.len() > 0 {
        let front = candidates.drop_last();
        lemma_nearest_index(pos, front);
        assert forall|j: int| 0 <= j < front.len() implies front[j] == candidates[j] by {}
    }
}

/// The positions of the pieces of one cargo that lie on the tiles, in the order
/// of the table.
pub open spec fn positions_of_pieces(objects: Seq<Object>, cargo: AntCargo) -> Seq<(u16, u16)>
    decreases objects.len(),
{
    if objects.len() == 0 {
        Seq::empty()
    } else {
        let before = positions_of_pieces(objects.drop_last(), cargo);
        if objects.last().piece_of(cargo) {
            before.push(objects.last().pos)
        } else {
            before
        }
    }
}

/// A tile is among `positions_of_pieces` where a piece of the cargo lies on it,
/// and nowhere else.
pub proof fn lemma_positions_of_pieces(objects: Seq<Object>, cargo: AntCargo, tile: (u16, u16))
    ensures
        positions_of_pieces(objects, cargo).contains(tile) <==> exists|k: int|
            0 <= k < objects.len() && (#[trigger] objects[k]).piece_of(cargo) && objects[k].pos
                == tile,
    decreases objects.len(),
{
    if objects.len() > 0 {
        let front = objects.drop_last();
        let before = positions_of_pieces(front, cargo);
        let all = positions_of_pieces(objects, cargo);
        lemma_positions_of_pieces(front, cargo, tile);
        assert forall|j: int| 0 <= j < front.len() implies front[j] == objects[j] by {}
        if exists|k: int|
            0 <= k < objects.len() && (#[trigger] objects[k]).piece_of(cargo) && objects[k].pos
                == tile {
            let k = choose|k: int|
                0 <= k < objects.len() && (#[trigger] objects[k]).piece_of(cargo) && objects[k].pos
                    == tile;
            if k < objects.len() - 1 {
                let i = choose|i: int| 0 <= i < before.len() && before[i] == tile;
                assert(all[i] == tile);
            } else {
                assert(all[before.len() as int] == tile);
            }
        }
    }
}

impl Turn {
    /// Index of the team that leads among the first `teams` teams, the team
    /// `own` left out: the first of those with the most points. None only where
    /// there is no team but `own`.
    pub open spec fn leader_below(self, own: i16, teams: int) -> Option<int>
        decreases teams,
    {
        if teams <= 0 {
            None
        } else {
            let before = self.leader_below(own, teams - 1);
            let team = self.teams@[teams - 1];
            if team.id != own && (before is None || self.teams@[before->0].points < team.points) {
                Some(teams - 1)
            } else {
                before
            }
        }
    }

    /// The team that leads is none of `own`, has at least as many points as any
    /// other such team, and more than any before it. None leads only where there
    /// is no team but `own`.
    pub proof fn lemma_leader_below(self, own: i16, teams: int)
        requires
            0 <= teams <= self.teams@.len(),
        ensures
            match self.leader_below(own, teams) {
                Some(k) => {
                    &&& 0 <= k < teams
                    &&& self.teams@[k].id != own
                    &&& forall|j: int|
                        0 <= j < teams && (#[trigger] self.teams@[j]).id != own
                            ==> self.teams@[j].points <= self.teams@[k].points
                    &&& forall|j: int|
                        0 <= j < k && (#[trigger] self.teams@[j]).id != own ==> self.teams@[j].points
                            < self.teams@[k].points
                },
                None => forall|j: int| 0 <= j < teams ==> (#[trigger] self.teams@[j]).id == own,
            },
        decreases teams,
    {
        if teams > 0 {
            self.lemma_leader_below(own, teams - 1);
        }
    }

    /// The home base of the leading team, the last base where there is no team
    /// but `own`.
    pub open spec fn leading_base(self, own: i16) -> (u16, u16) {
        match self.leader_below(own, self.teams@.len() as int) {
            Some(k) => HOME_BASE_COORDINATES[self.teams@[k].id as int],
            None => HOME_BASE_COORDINATES[15],
        }
    }

    /// Returns the coordinates of the base for the enemy team with the most points,
    /// of several such teams the first.
    ///
    /// Used to lead ants with toxins to enemy bases.
    pub fn leading_team_base_coordinates(&self, turn: &Turn) -> (coordinates: (u16, u16))
        requires
            self.wf(),
        ensures
            coordinates == self.leading_base(turn.team_id),
    {
        let mut coordinates: (u16, u16) = HOME_BASE_COORDINATES[15];
        let mut max_points: Option<u16> = None;
        let ghost mut leader: Option<int> = None;
        let mut i: usize = 0;
        while i < self.teams.len()
            invariant
                self.wf(),
                i <= self.teams@.len(),
                leader == self.leader_below(turn.team_id, i as int),
                leader is Some ==> 0 <= leader->0 < i,
                max_points == (match leader {
                    Some(k) => Some(self.teams@[k].points),
                    None => None,
                }),
                coordinates == (match leader {
                    Some(k) => HOME_BASE_COORDINATES[self.teams@[k].id as int],
                    None => HOME_BASE_COORDINATES[15],
                }),
            decreases self.teams@.len() - i,
        {
            let team = &self.teams[i];
            let leads: bool = match max_points {
                Some(most) => most < team.points,
                None => true,
            };
            // Prevent own base from getting attacked.
            if team.id != turn.team_id && leads {
                max_points = Some(team.points);
                coordinates = HOME_BASE_COORDINATES[team.id as usize];
                proof {
                    leader = Some(i as int);
                }
            }
            i += 1;
        }
        coordinates
    }

    /// The nearest piece of one cargo that lies on a tile.
    fn nearest_piece(&self, pos: (u16, u16), cargo: AntCargo) -> (r: Option<(u16, u16)>)
        ensures
            r == nearest_of(pos, positions_of_pieces(self.objects@, cargo)),
    {
        let mut pieces: Vec<&Object> = Vec::new();
        let ghost objects = self.objects@;
        let mut k: usize = 0;
        while k < self.objects.len()
            invariant
                objects == self.objects@,
                k <= objects.len(),
                pieces@.len() == positions_of_pieces(objects.take(k as int), cargo).len(),
                forall|j: int|
                    0 <= j < pieces@.len() ==> (#[trigger] pieces@[j]).pos == positions_of_pieces(
                        objects.take(k as int),
                        cargo,
                    )[j],
            decreases objects.len() - k,
        {
            let object: &Object = &self.objects[k];
            proof {
                assert(objects.take(k + 1).drop_last() =~= objects.take(k as int));
            }
            let held: bool = match object.get_ant_cargo() {
                Some(AntCargo::Sugar) => match cargo {
                    AntCargo::Sugar => true,
                    AntCargo::ToxicWaste => false,
                },
                Some(AntCargo::ToxicWaste) => match cargo {
                    AntCargo::Sugar => false,
                    AntCargo::ToxicWaste => true,
                },
                None => false,
            };
            if held && !object.is_ant() {
                pieces.push(object);
            }
            k += 1;
        }
        proof {
            assert(objects.take(k as int) =~= objects);
            assert(positions_of(pieces@) =~= positions_of_pieces(objects, cargo));
        }
        self.nearest(pos, &pieces)
    }

    /// Returns the coordinates for the nearest piece of sugar or `None` if no sugar is found.
    ///
    /// `pos` - the current position
    pub fn nearest_sugar_coordinates(&self, pos: (u16, u16)) -> (r: Option<(u16, u16)>)
        ensures
            r == nearest_of(pos, positions_of_pieces(self.objects@, AntCargo::Sugar)),
    {
        self.nearest_piece(pos, AntCargo::Sugar)
    }

    /// Returns the coordinates for the nearest piece of toxic waste or `None` if no toxins exist.
    pub fn nearest_toxic_waste_coordinates(&self, pos: (u16, u16)) -> (r: Option<(u16, u16)>)
        ensures
            r == nearest_of(pos, positions_of_pieces(self.objects@, AntCargo::ToxicWaste)),
    {
        self.nearest_piece(pos, AntCargo::ToxicWaste)
    }

    /// Returns the position of the thing that is nearest to `pos`, of several that
    /// are equally near the first, or `None` if there is nothing.
    pub fn nearest<T: Position>(&self, pos: (u16, u16), input: &Vec<T>) -> (nearest: Option<
        (u16, u16),
    >)
        ensures
            nearest == nearest_of(pos, positions_of(input@)),
    {
        let mut nearest: Option<(u16, u16)> = None;
        let mut nearest_distance: u16 = u16::MAX;
        let ghost candidates = positions_of(input@);
        let ghost mut index: Option<int> = None;
        let mut i: usize = 0;
        while i < input.len()
            invariant
                candidates == positions_of(input@),
                i <= input@.len(),
                index == nearest_index(pos, candidates.take(i as int)),
                index is Some ==> 0 <= index->0 < i,
                nearest == (match index {
                    Some(k) => Some(candidates[k]),
                    None => None,
                }),
                nearest is Some ==> nearest_distance == distance(pos, nearest->0),
            decreases input@.len() - i,
        {
            let place: (u16, u16) = input[i].pos();
            let distance: u16 = get_distance(pos, place);
            proof {
                assert(candidates.take(i + 1).drop_last() =~= candidates.take(i as int));
            }
            if nearest.is_none() || nearest_distance > distance {
                nearest = Some(place);
                nearest_distance = distance;
                proof {
                    index = Some(i as int);
                }
            }
            i += 1;
        }
        proof {
            assert(candidates.take(i as int) =~= candidates);
        }
        nearest
    }
}

/// Whether the tile is among the positions.
fn contains_position(positions: &[(u16, u16)], tile: (u16, u16)) -> (found: bool)
    ensures
        found == positions@.contains(tile),
{
    let mut i: usize = 0;
    while i < positions.len()
        invariant
            i <= positions@.len(),
            forall|j: int| 0 <= j < i ==> positions@[j] != tile,
        decreases positions@.len() - i,
    {
        if positions[i].0 == tile.0 && positions[i].1 == tile.1 {
            return true;
        }
        i += 1;
    }
    false
}

/// Nine directions to fall back on, each of them one of the eight that move.
pub open spec fn fallback_draws(draws: Seq<u8>) -> bool {
    draws.len() == 9 && forall|i: int| 0 <= i < 9 ==> 1 <= #[trigger] draws[i] <= 8
}

/// Draws one of the eight directions that move.
fn pick_fallback_direction() -> (direction: u8)
    ensures
        1 <= direction <= 8,
{
    random_in(1, 9)
}

impl Ant {
    /// Whether the ant does not step onto the tile: an ant of `ant_positions`
    /// stands on it, or the ant carries something and no object is on the tile.
    pub open spec fn refuses(
        self,
        tile: (u16, u16),
        ant_positions: Seq<(u16, u16)>,
        turn: Turn,
    ) -> bool {
        ant_positions.contains(tile) || (self.cargo is Some && !turn.positions().contains(tile))
    }

    /// Whether the ant does not step onto the tile that lies in the direction.
    pub open spec fn blocked(
        self,
        direction: u8,
        ant_positions: Seq<(u16, u16)>,
        turn: Turn,
    ) -> bool {
        self.refuses(next_tile(self.pos, direction), ant_positions, turn)
    }

    /// The direction that the ant settles on: `direction` where its tile is free,
    /// else the first of the draws whose tile is free. The last draw stands
    /// whether its tile is free or not.
    pub open spec fn settled(
        self,
        direction: u8,
        draws: Seq<u8>,
        ant_positions: Seq<(u16, u16)>,
        turn: Turn,
    ) -> u8
        decreases draws.len(),
    {
        if draws.len() == 0 || !self.blocked(direction, ant_positions, turn) {
            direction
        } else {
            self.settled(draws.first(), draws.skip(1), ant_positions, turn)
        }
    }

    /// Whether `direction` is one that the ant may take towards the target with
    /// some nine draws.
    pub open spec fn reaches(
        self,
        target: (u16, u16),
        ant_positions: Seq<(u16, u16)>,
        turn: Turn,
        direction: u8,
    ) -> bool {
        exists|draws: Seq<u8>|
            fallback_draws(draws) && direction == #[trigger] self.settled(
                direction_towards(self.pos, target),
                draws,
                ant_positions,
                turn,
            )
    }

    /// Whether the command fits the target: to stay where there is none, else a
    /// direction that the ant may take towards it.
    pub open spec fn moves_to(
        self,
        target: Option<(u16, u16)>,
        ant_positions: Seq<(u16, u16)>,
        turn: Turn,
        command: u8,
    ) -> bool {
        match target {
            Some(tile) => self.reaches(tile, ant_positions, turn, command),
            None => command == 5,
        }
    }

    /// Whether the ant does not step onto the tile.
    fn is_blocked(&self, tile: (u16, u16), ant_positions: &[(u16, u16)], turn: &Turn) -> (r: bool)
        ensures
            r == self.refuses(tile, ant_positions@, *turn),
    {
        if contains_position(ant_positions, tile) {
            return true;
        }
        if self.cargo.is_some() {
            let objects: Vec<(u16, u16)> = turn.object_positions();
            return !contains_position(objects.as_slice(), tile);
        }
        false
    }

    /// Returns the direction that the ant settles on when the further directions
    /// to try are those of `draws`, in their order.
    pub fn settle_direction(
        &self,
        direction: u8,
        draws: &[u8],
        ant_positions: &[(u16, u16)],
        turn: &Turn,
    ) -> (settled: u8)
        requires
            valid_direction(direction),
            forall|i: int| 0 <= i < draws@.len() ==> valid_direction(#[trigger] draws@[i]),
        ensures
            settled == self.settled(direction, draws@, ant_positions@, *turn),
            valid_direction(settled),
    {
        let mut current: u8 = direction;
        let mut i: usize = 0;
        assert(draws@.skip(0) =~= draws@);
        while i < draws.len()
            invariant
                i <= draws@.len(),
                valid_direction(current),
                forall|i: int| 0 <= i < draws@.len() ==> valid_direction(#[trigger] draws@[i]),
                self.settled(direction, draws@, ant_positions@, *turn) == self.settled(
                    current,
                    draws@.skip(i as int),
                    ant_positions@,
                    *turn,
                ),
            decreases draws@.len() - i,
        {
            let tile: (u16, u16) = match next_point(self.pos, current) {
                Ok(tile) => tile,
                Err(_) => unreached(),
            };
            if !self.is_blocked(tile, ant_positions, turn) {
                return current;
            }
            proof {
                assert(draws@.skip(i as int).skip(1) =~= draws@.skip(i + 1));
            }
            current = draws[i];
            i += 1;
        }
        current
    }

    /// Returns the direction in which the ant should go this turn.
    /// Takes into consideration if the most optimal path is blocked by another ant and changes
    /// direction accordingly: up to nine directions are tried, the one towards the
    /// target first. Each time the tile is refused another direction is drawn by
    /// chance, and the ninth that is drawn stands untried.
    /// Ants that already carry things only walk onto tiles that hold an object.
    pub fn get_direction(
        &self,
        target: (u16, u16),
        ant_positions: &[(u16, u16)],
        turn: &Turn,
    ) -> (direction: u8)
        ensures
            self.reaches(target, ant_positions@, *turn, direction),
            valid_direction(direction),
            !self.blocked(direction_towards(self.pos, target), ant_positions@, *turn)
                ==> direction == direction_towards(self.pos, target),
    {
        let mut direction: u8 = self.move_direction(target);
        let ghost first = direction;
        let ghost mut drawn: Seq<u8> = Seq::empty();
        let mut attempt: usize = 0;
        while attempt < 9
            invariant
                attempt <= 9,
                first == direction_towards(self.pos, target),
                drawn.len() == attempt,
                forall|i: int| 0 <= i < drawn.len() ==> 1 <= #[trigger] drawn[i] <= 8,
                direction == (if attempt == 0 {
                    first
                } else {
                    drawn[attempt - 1]
                }),
                valid_direction(direction),
                attempt > 0 ==> self.blocked(first, ant_positions@, *turn),
                forall|i: int|
                    0 <= i < attempt - 1 ==> self.blocked(
                        #[trigger] drawn[i],
                        ant_positions@,
                        *turn,
                    ),
            decreases 9 - attempt,
        {
            let tile: (u16, u16) = match next_point(self.pos, direction) {
                Ok(tile) => tile,
                Err(_) => unreached(),
            };
            if !self.is_blocked(tile, ant_positions, turn) {
                proof {
                    // What would have been drawn after this attempt has no part in it.
                    let draws = drawn + Seq::new((9 - attempt) as nat, |i: int| 1u8);
                    assert(fallback_draws(draws));
                    if attempt > 0 {
                        lemma_settled_first_free(
                            *self,
                            first,
                            draws,
                            ant_positions@,
                            *turn,
                            attempt - 1,
                        );
                    }
                    assert(direction == self.settled(first, draws, ant_positions@, *turn));
                }
                return direction;
            }
            direction = pick_fallback_direction();
            proof {
                drawn = drawn.push(direction);
            }
            attempt += 1;
        }
        proof {
            lemma_settled_first_free(*self, first, drawn, ant_positions@, *turn, 8);
        }
        direction
    }
}

/// Where the tile in the first direction is free, the ant takes that direction,
/// whatever is drawn.
pub proof fn lemma_settled_free(
    ant: Ant,
    direction: u8,
    draws: Seq<u8>,
    ant_positions: Seq<(u16, u16)>,
    turn: Turn,
)
    requires
        !ant.blocked(direction, ant_positions, turn),
    ensures
        ant.settled(direction, draws, ant_positions, turn) == direction,
{
}

/// Where the tile in the first direction is refused, the ant takes the first
/// draw whose tile is free, and the last draw where no earlier one is free.
pub proof fn lemma_settled_first_free(
    ant: Ant,
    direction: u8,
    draws: Seq<u8>,
    ant_positions: Seq<(u16, u16)>,
    turn: Turn,
    i: int,
)
    requires
        0 <= i < draws.len(),
        ant.blocked(direction, ant_positions, turn),
        forall|j: int| 0 <= j < i ==> ant.blocked(#[trigger] draws[j], ant_positions, turn),
        i < draws.len() - 1 ==> !ant.blocked(draws[i], ant_positions, turn),
    ensures
        ant.settled(direction, draws, ant_positions, turn) == draws[i],
    decreases i,
{
    let rest = draws.skip(1);
    if i > 0 {
        lemma_settled_first_free(ant, draws[0], rest, ant_positions, turn, i - 1);
    } else {
        assert(ant.settled(draws[0], rest, ant_positions, turn) == draws[0]);
    }
}

/// The ant settles on the first direction or on one of the draws.
pub proof fn lemma_settled_among(
    ant: Ant,
    direction: u8,
    draws: Seq<u8>,
    ant_positions: Seq<(u16, u16)>,
    turn: Turn,
)
    ensures
        ant.settled(direction, draws, ant_positions, turn) == direction || draws.contains(
            ant.settled(direction, draws, ant_positions, turn),
        ),
    decreases draws.len(),
{
    if draws.len() > 0 && ant.blocked(direction, ant_positions, turn) {
        let rest = draws.skip(1);
        lemma_settled_among(ant, draws.first(), rest, ant_positions, turn);
    }
}

impl Ant {
    /// Where a gatherer goes: to the nearest enemy ant with at most 3 health where
    /// hunting is on and there is one; else home with its sugar, by way of the
    /// beacon from further than 20 away; else to the nearest piece of sugar.
    pub open spec fn gatherer_target(self, turn: Turn, args: Args, jobs: Seq<AntJob>) -> Option<
        (u16, u16),
    > {
        let hunted = nearest_of(self.pos, positions_of(turn.enemies(Some(3u8), jobs)));
        if args.hunt && hunted is Some {
            hunted
        } else if self.cargo == Some(AntCargo::Sugar) {
            if distance(self.pos, HOME_BASE_COORDINATES[turn.team_id as int]) > 20 {
                Some(HOME_BASE_BEACONS[turn.team_id as int])
            } else {
                Some(HOME_BASE_COORDINATES[turn.team_id as int])
            }
        } else {
            nearest_of(self.pos, positions_of_pieces(turn.objects@, AntCargo::Sugar))
        }
    }

    /// Where an offensive ant goes: to the nearest enemy ant with at most
    /// `max_health` health, else where a gatherer would go.
    pub open spec fn offensive_target(self, turn: Turn, args: Args, jobs: Seq<AntJob>) -> Option<
        (u16, u16),
    > {
        let attacked = nearest_of(
            self.pos,
            positions_of(turn.enemies(Some(args.max_health), jobs)),
        );
        if attacked is Some {
            attacked
        } else {
            self.gatherer_target(turn, args, jobs)
        }
    }

    /// Where a waste mover goes: to the nearest piece of toxic waste, else where
    /// an offensive ant would go.
    pub open spec fn waste_mover_target(
        self,
        turn: Turn,
        args: Args,
        jobs: Seq<AntJob>,
    ) -> Option<(u16, u16)> {
        let waste = nearest_of(self.pos, positions_of_pieces(turn.objects@, AntCargo::ToxicWaste));
        if waste is Some {
            waste
        } else {
            self.offensive_target(turn, args, jobs)
        }
    }

    /// Where the ant goes, none where it stays: a dead ant stays, one with at
    /// most 3 health goes home, one that carries toxic waste goes to the base of
    /// the leading enemy, and any other does its job.
    pub open spec fn target(self, turn: Turn, args: Args, jobs: Seq<AntJob>) -> Option<
        (u16, u16),
    > {
        if self.health == 0 {
            None
        } else if self.health <= 3 {
            Some(HOME_BASE_COORDINATES[turn.team_id as int])
        } else if self.cargo == Some(AntCargo::ToxicWaste) {
            Some(turn.leading_base(turn.team_id))
        } else {
            match self.job {
                Some(AntJob::Gatherer) => self.gatherer_target(turn, args, jobs),
                Some(AntJob::Offensive) => self.offensive_target(turn, args, jobs),
                Some(AntJob::WasteMover) => self.waste_mover_target(turn, args, jobs),
                None => None,
            }
        }
    }

    /// What an ant that does its job asks of the turn: one that carries sugar
    /// may go home, so that the client's team has to be one of the sixteen.
    pub open spec fn knows_home(self, turn: Turn) -> bool {
        self.cargo == Some(AntCargo::Sugar) ==> turn.own_team_known()
    }

    /// What `calc_move` asks of the ant: one that goes home for want of health
    /// belongs to a team that the client can be, and one that is to do its job
    /// has one and knows its home.
    pub open spec fn can_move(self, turn: Turn) -> bool {
        &&& 1 <= self.health <= 3 ==> turn.own_team_known()
        &&& self.health > 3 && self.cargo != Some(AntCargo::ToxicWaste) ==> self.job is Some
            && self.knows_home(turn)
    }

    /// Decides in which direction this ant will move in the next turn
    pub fn calc_move(
        &self,
        turn: &Turn,
        ant_positions: &[(u16, u16)],
        args: &Args,
        ant_jobs: &[AntJob],
    ) -> (command: u8)
        requires
            turn.wf(),
            ant_jobs@.len() == 16,
            self.can_move(*turn),
        ensures
            self.moves_to(self.target(*turn, *args, ant_jobs@), ant_positions@, *turn, command),
            valid_direction(command),
            self.health == 0 ==> command == 5,
    {
        // Do nothing when dead
        if self.health == 0 {
            return 5;
        }
        // Move home when health <= 3
        if self.health <= 3 {
            return self.get_direction(
                HOME_BASE_COORDINATES[turn.team_id as usize],
                ant_positions,
                turn,
            );
        }
        // Move to enemy base when carrying toxin
        if let Some(AntCargo::ToxicWaste) = self.cargo {
            return self.get_direction(
                turn.leading_team_base_coordinates(turn),
                ant_positions,
                turn,
            );
        }
        match self.job {
            Some(AntJob::Gatherer) => self.calc_gatherer_move(turn, ant_positions, args, ant_jobs),
            Some(AntJob::Offensive) => self.calc_offensive_move(
                turn,
                ant_positions,
                args,
                ant_jobs,
            ),
            Some(AntJob::WasteMover) => self.calc_waste_mover_move(
                turn,
                ant_positions,
                args,
                ant_jobs,
            ),
            None => unreached(),
        }
    }

    /// Decides in which direction the ant moves in the next turn.
    ///
    /// This function focuses on resource gathering.
    pub fn calc_gatherer_move(
        &self,
        turn: &Turn,
        ant_positions: &[(u16, u16)],
        args: &Args,
        ant_jobs: &[AntJob],
    ) -> (command: u8)
        requires
            turn.wf(),
            self.knows_home(*turn),
            ant_jobs@.len() == 16,
        ensures
            self.moves_to(
                self.gatherer_target(*turn, *args, ant_jobs@),
                ant_positions@,
                *turn,
                command,
            ),
            valid_direction(command),
    {
        // Attack nearest ant with health <= 3 if hunt is enabled
        if args.hunt {
            let nearest_enemy = turn.nearest(self.pos, &turn.enemy_ants(Some(3), ant_jobs));
            if let Some(ne) = nearest_enemy {
                return self.get_direction(ne, ant_positions, turn);
            }
        }
        // Move home when carrying sugar
        if let Some(AntCargo::Sugar) = self.cargo {
            let distance = get_distance(self.pos, HOME_BASE_COORDINATES[turn.team_id as usize]);
            // Move to beacon if to far away
            if distance > 20 {
                return self.get_direction(
                    HOME_BASE_BEACONS[turn.team_id as usize],
                    ant_positions,
                    turn,
                );
            } else {
                return self.get_direction(
                    HOME_BASE_COORDINATES[turn.team_id as usize],
                    ant_positions,
                    turn,
                );
            }
        }
        // Search next piece of sugar
        match turn.nearest_sugar_coordinates(self.pos) {
            Some(pos) => self.get_direction(pos, ant_positions, turn),
            None => 5,
        }
    }

    /// Decides in which direction the ant moves in the next turn.
    ///
    /// This function focuses on offensive action against enemy ants.
    pub fn calc_offensive_move(
        &self,
        turn: &Turn,
        ant_positions: &[(u16, u16)],
        args: &Args,
        ant_jobs: &[AntJob],
    ) -> (command: u8)
        requires
            turn.wf(),
            self.knows_home(*turn),
            ant_jobs@.len() == 16,
        ensures
            self.moves_to(
                self.offensive_target(*turn, *args, ant_jobs@),
                ant_positions@,
                *turn,
                command,
            ),
            valid_direction(command),
    {
        // Attack the closest enemy ant that is weak enough
        let nearest_enemy = turn.nearest(
            self.pos,
            &turn.enemy_ants(Some(args.max_health), ant_jobs),
        );
        if let Some(ne) = nearest_enemy {
            return self.get_direction(ne, ant_positions, turn);
        }
        self.calc_gatherer_move(turn, ant_positions, args, ant_jobs)
    }

    /// Decides in which direction the ant moves in the next turn.
    ///
    /// This function focuses on bringing waste into enemy bases.
    pub fn calc_waste_mover_move(
        &self,
        turn: &Turn,
        ant_positions: &[(u16, u16)],
        args: &Args,
        ant_jobs: &[AntJob],
    ) -> (command: u8)
        requires
            turn.wf(),
            self.knows_home(*turn),
            ant_jobs@.len() == 16,
        ensures
            self.moves_to(
                self.waste_mover_target(*turn, *args, ant_jobs@),
                ant_positions@,
                *turn,
                command,
            ),
            valid_direction(command),
    {
        if let Some(pos) = turn.nearest_toxic_waste_coordinates(self.pos) {
            return self.get_direction(pos, ant_positions, turn);
        }
        self.calc_offensive_move(turn, ant_positions, args, ant_jobs)
    }
}

/// Analyzes the current game state and makes an appropriate turn by moving each ant one tile:
/// the action at index `id` is that of the ant `id` of the client's team.
pub fn turn(snapshot: &Turn, args: &Args, ant_jobs: &[AntJob]) -> (actions: [u8; 16])
    requires
        snapshot.wf(),
        ant_jobs@.len() == 16,
    ensures
        forall|id: int| 0 <= id < 16 ==> valid_direction(#[trigger] actions@[id]),
        forall|id: int|
            0 <= id < 16 ==> (#[trigger] snapshot.roster(snapshot.team_id, ant_jobs@)[id]).moves_to(
                snapshot.roster(snapshot.team_id, ant_jobs@)[id].target(*snapshot, *args, ant_jobs@),
                positions_of_team(snapshot.objects@, snapshot.team_id),
                *snapshot,
                actions@[id],
            ),
        forall|id: int|
            0 <= id < 16 && (#[trigger] snapshot.roster(snapshot.team_id, ant_jobs@)[id]).health == 0
                ==> actions@[id] == 5,
{
    let mut actions: [u8; 16] = [5u8; 16];
    let ants: Ants = Ants::from_turn(snapshot, None, ant_jobs);
    let ghost roster = snapshot.roster(snapshot.team_id, ant_jobs@);
    proof {
        lemma_roster_shape(*snapshot, snapshot.team_id, ant_jobs@);
    }
    let mut id: usize = 0;
    while id < 16
        invariant
            snapshot.wf(),
            ant_jobs@.len() == 16,
            id <= 16,
            roster == snapshot.roster(snapshot.team_id, ant_jobs@),
            ants.ants@ == roster,
            ants.ant_positions@ == positions_of_team(snapshot.objects@, snapshot.team_id),
            forall|i: int|
                0 <= i < 16 && (#[trigger] roster[i]).health > 0 ==> snapshot.own_team_known()
                    && roster[i].job is Some,
            forall|i: int| 0 <= i < id ==> valid_direction(#[trigger] actions@[i]),
            forall|i: int|
                0 <= i < id ==> (#[trigger] roster[i]).moves_to(
                    roster[i].target(*snapshot, *args, ant_jobs@),
                    ants.ant_positions@,
                    *snapshot,
                    actions@[i],
                ),
            forall|i: int| 0 <= i < id && (#[trigger] roster[i]).health == 0 ==> actions@[i] == 5,
        decreases 16 - id,
    {
        let ant: &Ant = &ants.ants[id];
        let command: u8 = ant.calc_move(snapshot, ants.ant_positions.as_slice(), args, ant_jobs);
        actions[id] = command;
        id += 1;
    }
    actions
}

/// An ant with 1 to 3 health takes the direction of its home base, provided that
/// it does not refuse the tile that lies there.
pub proof fn lemma_weak_ant_heads_home(
    ant: Ant,
    turn: Turn,
    args: Args,
    jobs: Seq<AntJob>,
    ant_positions: Seq<(u16, u16)>,
    command: u8,
)
    requires
        1 <= ant.health <= 3,
        ant.moves_to(ant.target(turn, args, jobs), ant_positions, turn, command),
        !ant.blocked(
            direction_towards(ant.pos, HOME_BASE_COORDINATES[turn.team_id as int]),
            ant_positions,
            turn,
        ),
    ensures
        command == direction_towards(ant.pos, HOME_BASE_COORDINATES[turn.team_id as int]),
{
}

/// An ant with no health is told to stay.
pub proof fn lemma_dead_ant_stays(
    ant: Ant,
    turn: Turn,
    args: Args,
    jobs: Seq<AntJob>,
    ant_positions: Seq<(u16, u16)>,
    command: u8,
)
    requires
        ant.health == 0,
        ant.moves_to(ant.target(turn, args, jobs), ant_positions, turn, command),
    ensures
        command == 5,
{
}

} // verus!
