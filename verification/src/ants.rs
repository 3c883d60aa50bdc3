//! The ants of a team, as one turn shows them.

use crate::jobs::AntJob;
use crate::utils::{next_tile, valid_direction};
use crate::world::{AntCargo, Object, Position, Turn};
use std::collections::HashSet;
use vstd::prelude::*;

verus! {

/// One ant of a team. Ants are compared by their ids alone.
#[derive(Debug, Clone, Copy, Eq)]
pub struct Ant {
    /// Id of this ant
    pub id: u8,
    /// Current position on the board
    pub pos: (u16, u16),
    /// Current health
    pub health: u8,
    /// Stores what the ant is carrying
    pub cargo: Option<AntCargo>,
    /// The job this ant is directed to do
    pub job: Option<AntJob>,
}

/// -1, 0 or 1, as `to` lies below, at or above `from`.
pub open spec fn sign_towards(from: u16, to: u16) -> int {
    if to < from {
        -1
    } else if to > from {
        1
    } else {
        0
    }
}

/// The key of a keypad that points from `from` to `to`: `5` where both are the
/// same tile, one more for a target further east, three more for one further north.
pub open spec fn direction_towards(from: (u16, u16), to: (u16, u16)) -> u8 {
    (5 + sign_towards(from.0, to.0) + 3 * sign_towards(from.1, to.1)) as u8
}

impl Ant {
    /// Creates a new ant
    pub fn new(
        id: u8,
        pos: (u16, u16),
        health: u8,
        cargo: Option<AntCargo>,
        job: Option<AntJob>,
    ) -> (ant: Self)
        ensures
            ant == (Ant { id, pos, health, cargo, job }),
    {
        Self { id, pos, health, cargo, job }
    }

    /// Returns the direction in which the ant should go to reach target.
    pub fn move_direction(&self, target: (u16, u16)) -> (direction: u8)
        ensures
            direction == direction_towards(self.pos, target),
            1 <= direction <= 9,
    {
        if self.pos.0 > target.0 && self.pos.1 > target.1 {
            return 1;
        }
        if self.pos.0 < target.0 && self.pos.1 > target.1 {
            return 3;
        }
        if self.pos.0 < target.0 && self.pos.1 < target.1 {
            return 9;
        }
        if self.pos.0 > target.0 && self.pos.1 < target.1 {
            return 7;
        }
        if self.pos.0 == target.0 && self.pos.1 < target.1 {
            return 8;
        }
        if self.pos.0 == target.0 && self.pos.1 > target.1 {
            return 2;
        }
        if self.pos.0 < target.0 && self.pos.1 == target.1 {
            return 6;
        }
        if self.pos.0 > target.0 && self.pos.1 == target.1 {
            return 4;
        }
        5
    }
}

impl Position for Ant {
    open spec fn position(&self) -> (u16, u16) {
        self.pos
    }

    fn pos(&self) -> (p: (u16, u16)) {
        self.pos
    }
}

/// A step in the direction of a target comes one tile nearer to it along each
/// axis on which the target lies elsewhere, and stays on the others.
pub proof fn lemma_step_towards(from: (u16, u16), to: (u16, u16))
    ensures
        valid_direction(direction_towards(from, to)),
        direction_towards(from, to) == 5 <==> from == to,
        next_tile(from, direction_towards(from, to)).0 == from.0 + sign_towards(from.0, to.0),
        next_tile(from, direction_towards(from, to)).1 == from.1 + sign_towards(from.1, to.1),
{
}

/// Whether the object is an ant of the team.
pub open spec fn ant_of_team(object: Object, team: i16) -> bool {
    object.ant() && object.b1.lower == team
}

/// The ant that an object describes.
pub open spec fn ant_from(object: Object, job: Option<AntJob>) -> Ant {
    Ant {
        id: object.b2.upper,
        pos: object.pos,
        health: object.b2.lower,
        cargo: object.cargo(),
        job,
    }
}

/// What stands in for an ant that the turn does not show: a dead ant at the
/// origin, with no cargo and no job.
pub open spec fn placeholder(id: int) -> Ant {
    Ant { id: id as u8, pos: (0, 0), health: 0, cargo: None, job: None }
}

/// Index of the first object that is the ant `id` of the team, if there is one.
pub open spec fn first_entry(objects: Seq<Object>, team: i16, id: int) -> Option<int>
    decreases objects.len(),
{
    if objects.len() == 0 {
        None
    } else {
        let before = first_entry(objects.drop_last(), team, id);
        if before is Some {
            before
        } else if ant_of_team(objects.last(), team) && objects.last().b2.upper == id {
            Some(objects.len() - 1)
        } else {
            None
        }
    }
}

/// `first_entry` finds the ant where it first occurs, and finds none only where
/// it does not occur.
pub proof fn lemma_first_entry(objects: Seq<Object>, team: i16, id: int)
    ensures
        match first_entry(objects, team, id) {
            Some(k) => {
                &&& 0 <= k < objects.len()
                &&& ant_of_team(objects[k], team)
                &&& objects[k].b2.upper == id
                &&& forall|j: int|
                    0 <= j < k ==> !(ant_of_team(#[trigger] objects[j], team) && objects[j].b2.upper
                        == id)
            },
            None => forall|j: int|
                0 <= j < objects.len() ==> !(ant_of_team(#[trigger] objects[j], team)
                    && objects[j].b2.upper == id),
        },
    decreases objects.len(),
{
    if objects.len() > 0 {
        lemma_first_entry(objects.drop_last(), team, id);
        assert forall|j: int| 0 <= j < objects.len() - 1 implies objects.drop_last()[j]
            == objects[j] by {}
    }
}

/// The positions of the team's ants, in the order of the table, each as often
/// as the table shows it.
pub open spec fn positions_of_team(objects: Seq<Object>, team: i16) -> Seq<(u16, u16)>
    decreases objects.len(),
{
    if objects.len() == 0 {
        Seq::empty()
    } else {
        let before = positions_of_team(objects.drop_last(), team);
        if ant_of_team(objects.last(), team) {
            before.push(objects.last().pos)
        } else {
            before
        }
    }
}

/// A tile is among `positions_of_team` where an ant of the team stands on it,
/// and nowhere else.
pub proof fn lemma_positions_of_team(objects: Seq<Object>, team: i16, tile: (u16, u16))
    ensures
        positions_of_team(objects, team).contains(tile) <==> exists|k: int|
            0 <= k < objects.len() && ant_of_team(#[trigger] objects[k], team) && objects[k].pos
                == tile,
    decreases objects.len(),
{
    if objects.len() > 0 {
        let front = objects.drop_last();
        let before = positions_of_team(front, team);
        lemma_positions_of_team(front, team, tile);
        assert forall|j: int| 0 <= j < front.len() implies front[j] == objects[j] by {}
        if exists|k: int|
            0 <= k < objects.len() && ant_of_team(#[trigger] objects[k], team) && objects[k].pos
                == tile {
            let k = choose|k: int|
                0 <= k < objects.len() && ant_of_team(#[trigger] objects[k], team)
                    && objects[k].pos == tile;
            if k < objects.len() - 1 {
                let i = choose|i: int| 0 <= i < before.len() && before[i] == tile;
                assert(positions_of_team(objects, team)[i] == tile);
            } else {
                assert(positions_of_team(objects, team)[before.len() as int] == tile);
            }
        }
    }
}

impl Turn {
    /// The team that `from_turn` builds the ants of.
    pub open spec fn chosen_team(self, team_id: Option<i16>) -> i16 {
        match team_id {
            None => self.team_id,
            Some(id) => id,
        }
    }

    /// The job of the ant `id` of a team: the entry of the table for the
    /// client's own team, none for any other.
    pub open spec fn job_of(self, team: i16, jobs: Seq<AntJob>, id: int) -> Option<AntJob> {
        if team == self.team_id {
            Some(jobs[id])
        } else {
            None
        }
    }

    /// The ant `id` of the team: as the first of its objects shows it, or the
    /// placeholder where the turn shows none.
    pub open spec fn roster_entry(self, team: i16, jobs: Seq<AntJob>, id: int) -> Ant {
        match first_entry(self.objects@, team, id) {
            Some(k) => ant_from(self.objects@[k], self.job_of(team, jobs, id)),
            None => placeholder(id),
        }
    }

    /// The sixteen ants of the team, the ant `id` at index `id`.
    pub open spec fn roster(self, team: i16, jobs: Seq<AntJob>) -> Seq<Ant> {
        Seq::new(16, |id: int| self.roster_entry(team, jobs, id))
    }
}

/// Every roster holds sixteen ants, and the ant at index `id` has the id `id`: the
/// ids rise from 0 to 15 and none occurs twice. An ant that is alive is shown by
/// an object of the team, and one of the client's own team then has its job.
pub proof fn lemma_roster_shape(turn: Turn, team: i16, jobs: Seq<AntJob>)
    ensures
        turn.roster(team, jobs).len() == 16,
        forall|id: int| 0 <= id < 16 ==> (#[trigger] turn.roster(team, jobs)[id]).id == id,
        forall|id: int|
            0 <= id < 16 && (#[trigger] turn.roster(team, jobs)[id]).health > 0 ==> {
                &&& 0 <= team < 256
                &&& turn.wf() ==> team < 16
                &&& turn.roster(team, jobs)[id].job == turn.job_of(team, jobs, id)
            },
{
    assert forall|id: int| 0 <= id < 16 implies {
        &&& (#[trigger] turn.roster(team, jobs)[id]).id == id
        &&& turn.roster(team, jobs)[id].health > 0 ==> 0 <= team < 256 && (turn.wf() ==> team
            < 16) && turn.roster(team, jobs)[id].job == turn.job_of(team, jobs, id)
    } by {
        lemma_first_entry(turn.objects@, team, id);
    }
}

/// An ant that can be attacked: one that is alive and, where a threshold is
/// given, has no more health than that.
pub open spec fn attackable(ant: Ant, live_threshold: Option<u8>) -> bool {
    ant.health > 0 && (live_threshold is Some ==> ant.health <= live_threshold->0)
}

/// Those of the ants that can be attacked, in their order.
pub open spec fn attackable_among(ants: Seq<Ant>, live_threshold: Option<u8>) -> Seq<Ant>
    decreases ants.len(),
{
    if ants.len() == 0 {
        Seq::empty()
    } else {
        let before = attackable_among(ants.drop_last(), live_threshold);
        if attackable(ants.last(), live_threshold) {
            before.push(ants.last())
        } else {
            before
        }
    }
}

/// `attackable_among` holds the ants that can be attacked and no others.
pub proof fn lemma_attackable_among(ants: Seq<Ant>, live_threshold: Option<u8>, ant: Ant)
    ensures
        attackable_among(ants, live_threshold).contains(ant) <==> ants.contains(ant) && attackable(
            ant,
            live_threshold,
        ),
    decreases ants.len(),
{
    let chosen = attackable_among(ants, live_threshold);
    if ants.len() > 0 {
        let front = ants.drop_last();
        let before = attackable_among(front, live_threshold);
        lemma_attackable_among(front, live_threshold, ant);
        if ants.contains(ant) && attackable(ant, live_threshold) {
            let j = choose|j: int| 0 <= j < ants.len() && ants[j] == ant;
            if j < front.len() {
                assert(front[j] == ant);
                let i = choose|i: int| 0 <= i < before.len() && before[i] == ant;
                assert(chosen[i] == ant);
            } else {
                assert(chosen[before.len() as int] == ant);
            }
        }
    }
}

impl Turn {
    /// The ants of the teams below `teams`, the client's own left out, that can
    /// be attacked: team after team, and in each team by id.
    pub open spec fn enemies_below(
        self,
        live_threshold: Option<u8>,
        jobs: Seq<AntJob>,
        teams: int,
    ) -> Seq<Ant>
        decreases teams,
    {
        if teams <= 0 {
            Seq::empty()
        } else {
            let before = self.enemies_below(live_threshold, jobs, teams - 1);
            if teams - 1 == self.team_id {
                before
            } else {
                before + attackable_among(self.roster((teams - 1) as i16, jobs), live_threshold)
            }
        }
    }

    /// The ants of all sixteen teams but the client's own that can be attacked.
    pub open spec fn enemies(self, live_threshold: Option<u8>, jobs: Seq<AntJob>) -> Seq<Ant> {
        self.enemies_below(live_threshold, jobs, 16)
    }

    /// An ant is among `enemies_below` where it is in the roster of one of
    /// those teams, the client's own left out, and can be attacked; and nowhere else.
    pub proof fn lemma_enemies_below(
        self,
        live_threshold: Option<u8>,
        jobs: Seq<AntJob>,
        teams: int,
        ant: Ant,
    )
        ensures
            self.enemies_below(live_threshold, jobs, teams).contains(ant) <==> attackable(
                ant,
                live_threshold,
            ) && exists|team: int|
                0 <= team < teams && team != self.team_id && (#[trigger] self.roster(
                    team as i16,
                    jobs,
                )).contains(ant),
        decreases teams,
    {
        if teams > 0 {
            let before = self.enemies_below(live_threshold, jobs, teams - 1);
            let roster = self.roster((teams - 1) as i16, jobs);
            let added = attackable_among(roster, live_threshold);
            self.lemma_enemies_below(live_threshold, jobs, teams - 1, ant);
            lemma_attackable_among(roster, live_threshold, ant);
            let all = self.enemies_below(live_threshold, jobs, teams);
            if attackable(ant, live_threshold) && exists|team: int|
                0 <= team < teams && team != self.team_id && (#[trigger] self.roster(
                    team as i16,
                    jobs,
                )).contains(ant) {
                let team = choose|team: int|
                    0 <= team < teams && team != self.team_id && (#[trigger] self.roster(
                        team as i16,
                        jobs,
                    )).contains(ant);
                if team < teams - 1 {
                    let i = choose|i: int| 0 <= i < before.len() && before[i] == ant;
                    assert(all[i] == ant);
                } else {
                    let i = choose|i: int| 0 <= i < added.len() && added[i] == ant;
                    assert(all[before.len() + i] == ant);
                }
            }
        }
    }

    /// Builds ants for all enemy teams.
    /// Only includes ants that are alive.
    ///
    /// - `live_threshold` can be set to limit the ants that are shown to only ants with less or
    ///   equal amount of health.
    pub fn enemy_ants(&self, live_threshold: Option<u8>, ant_jobs: &[AntJob]) -> (ants: Vec<Ant>)
        requires
            self.wf(),
            ant_jobs@.len() == 16,
        ensures
            ants@ == self.enemies(live_threshold, ant_jobs@),
    {
        let mut ants: Vec<Ant> = Vec::new();
        let mut team: i16 = 0;
        while team < 16
            invariant
                self.wf(),
                ant_jobs@.len() == 16,
                0 <= team <= 16,
                ants@ == self.enemies_below(live_threshold, ant_jobs@, team as int),
            decreases 16 - team,
        {
            if team != self.team_id {
                let roster: Vec<Ant> = Ants::from_turn(self, Some(team), ant_jobs).ants;
                let ghost before = ants@;
                let mut i: usize = 0;
                while i < roster.len()
                    invariant
                        i <= roster@.len(),
                        ants@ == before + attackable_among(roster@.take(i as int), live_threshold),
                    decreases roster@.len() - i,
                {
                    let ant: Ant = roster[i];
                    proof {
                        assert(roster@.take(i + 1).drop_last() =~= roster@.take(i as int));
                    }
                    let spared: bool = ant.health == 0 || match live_threshold {
                        Some(most) => ant.health > most,
                        None => false,
                    };
                    if !spared {
                        ants.push(ant);
                    }
                    i += 1;
                }
                assert(roster@.take(i as int) =~= roster@);
            }
            team += 1;
        }
        ants
    }
}

/// The ants of one team in one turn.
#[derive(Debug)]
pub struct Ants {
    pub ants: Vec<Ant>,
    /// Stores all positions the ants are at the moment.
    /// Used to determine possible collisions when ants are moving.
    pub ant_positions: Vec<(u16, u16)>,
}

impl Ants {
    /// Creates ants from the turn.
    ///
    /// `team_id` - determines for which team the ants should be built. If `None` ants will be
    /// built for own team.
    ///
    /// There is one ant for each id, in the order of the ids. Where the table shows
    /// an id twice, the first object counts; where it does not show it, a dead ant
    /// takes its place, so that an action for each ant can be handed in.
    pub fn from_turn(turn: &Turn, team_id: Option<i16>, ant_jobs: &[AntJob]) -> (r: Self)
        requires
            turn.wf(),
            ant_jobs@.len() == 16,
        ensures
            r.ants@ == turn.roster(turn.chosen_team(team_id), ant_jobs@),
            r.ant_positions@ == positions_of_team(turn.objects@, turn.chosen_team(team_id)),
            r.ants@.len() == 16,
            forall|id: int| 0 <= id < 16 ==> (#[trigger] r.ants@[id]).id == id,
    {
        let team_id: i16 = match team_id {
            None => turn.team_id,
            Some(id) => id,
        };
        broadcast use vstd::std_specs::hash::group_hash_axioms;

        let mut ants: Vec<Ant> = Vec::new();
        // Stores ids of ants that are not yet shown by an object
        let mut missing_ants: HashSet<u8> = HashSet::new();
        let mut id: u8 = 0;
        while id < 16
            invariant
                id <= 16,
                ants@.len() == id,
                forall|i: int| 0 <= i < id ==> ants@[i] == placeholder(i),
                forall|i: u8| missing_ants@.contains(i) <==> i < id,
            decreases 16 - id,
        {
            // A dead ant stands in for each ant until an object shows it.
            // This makes sure that an action for each ant is handed in even when ants are dead.
            ants.push(Ant::new(id, (0, 0), 0, None, None));
            missing_ants.insert(id);
            id += 1;
        }
        let mut ant_positions: Vec<(u16, u16)> = Vec::new();
        let ghost objects = turn.objects@;
        let ghost jobs = ant_jobs@;
        let mut k: usize = 0;
        while k < turn.objects.len()
            invariant
                turn.wf(),
                objects == turn.objects@,
                jobs == ant_jobs@,
                jobs.len() == 16,
                k <= objects.len(),
                ants@.len() == 16,
                forall|i: u8|
                    missing_ants@.contains(i) <==> i < 16 && first_entry(
                        objects.take(k as int),
                        team_id,
                        i as int,
                    ) is None,
                forall|i: int|
                    0 <= i < 16 ==> ants@[i] == (match first_entry(
                        objects.take(k as int),
                        team_id,
                        i,
                    ) {
                        Some(j) => ant_from(objects[j], turn.job_of(team_id, jobs, i)),
                        None => placeholder(i),
                    }),
                ant_positions@ == positions_of_team(objects.take(k as int), team_id),
            decreases objects.len() - k,
        {
            let object: &Object = &turn.objects[k];
            proof {
                assert(objects.take(k + 1).drop_last() =~= objects.take(k as int));
                let shown = objects.take(k as int);
                assert forall|i: int|
                    0 <= i < 16 && (#[trigger] first_entry(shown, team_id, i)) is Some implies 0
                    <= first_entry(shown, team_id, i)->0 < k by {
                    lemma_first_entry(shown, team_id, i);
                }
            }
            if object.b1.lower as i16 == team_id && object.is_ant() {
                let ant_id: u8 = object.b2.upper;
                if missing_ants.remove(&ant_id) {
                    let job: Option<AntJob> = if team_id == turn.team_id {
                        Some(ant_jobs[ant_id as usize])
                    } else {
                        None
                    };
                    ants.set(
                        ant_id as usize,
                        Ant::new(ant_id, object.pos, object.b2.lower, object.get_ant_cargo(), job),
                    );
                }
                ant_positions.push(object.pos);
            }
            k += 1;
        }
        proof {
            assert(objects.take(k as int) =~= objects);
            assert(ants@ =~= turn.roster(team_id, jobs));
            lemma_roster_shape(*turn, team_id, jobs);
        }
        Self { ants, ant_positions }
    }
}

} // verus!
