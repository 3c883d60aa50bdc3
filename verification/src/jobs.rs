//! The jobs of the sixteen ants of a team.

use crate::cli::Args;
use crate::error::AntsError;
use crate::random::random_in;
use vstd::prelude::*;
use vstd::string::StringExecFns;

verus! {

/// Different types of ants
#[derive(Debug, Clone, Copy, PartialEq, Eq, PartialOrd, Ord, Structural)]
pub enum AntJob {
    /// These ants will focus on gathering sugar back to the base
    Gatherer,
    /// These ants will seek to attack enemy ants
    Offensive,
    /// These ants will bring toxic waste into the enemy base that is currently leading the game.
    /// If no more toxic waste is found they will do the job of offensive ants.
    WasteMover,
}

/// Number of ants in a team, and of entries in a table of jobs.
pub const TEAM_SIZE: usize = 16;

/// A table that starts with `gatherers` gatherers, goes on with `offensive`
/// offensive ants and ends with `waste_movers` waste movers.
pub open spec fn job_table(gatherers: nat, offensive: nat, waste_movers: nat) -> Seq<AntJob> {
    Seq::new(gatherers, |i: int| AntJob::Gatherer) + Seq::new(offensive, |i: int| AntJob::Offensive)
        + Seq::new(waste_movers, |i: int| AntJob::WasteMover)
}

/// The job that stands behind a number below three.
pub open spec fn job_of_index(index: u8) -> AntJob {
    if index == 0 {
        AntJob::Gatherer
    } else if index == 1 {
        AntJob::Offensive
    } else {
        AntJob::WasteMover
    }
}

/// The counts that the settings ask for, if all three are given and add up to
/// the size of a team.
pub open spec fn requested_counts(args: Args) -> Option<(nat, nat, nat)> {
    match (args.gatherer_ants, args.offensive_ants, args.waste_mover_ants) {
        (Some(g), Some(o), Some(w)) => if g + o + w == TEAM_SIZE {
            Some((g as nat, o as nat, w as nat))
        } else {
            None
        },
        _ => None,
    }
}

impl AntJob {
    /// Turns a number drawn from `0..3` into a job.
    pub fn from_index(index: u8) -> (job: AntJob)
        requires
            index < 3,
        ensures
            job == job_of_index(index),
    {
        match index {
            0 => AntJob::Gatherer,
            1 => AntJob::Offensive,
            _ => AntJob::WasteMover,
        }
    }
}

/// Appends `count` times the same job.
fn push_jobs(jobs: &mut Vec<AntJob>, job: AntJob, count: u8)
    ensures
        final(jobs)@ == old(jobs)@ + Seq::new(count as nat, |i: int| job),
{
    let mut done: u8 = 0;
    while done < count
        invariant
            done <= count,
            jobs@ == old(jobs)@ + Seq::new(done as nat, |i: int| job),
        decreases count - done,
    {
        jobs.push(job);
        done += 1;
    }
}

/// Sets the jobs for the ants by analyzing the input parameters.
///
/// Returns a vector with exactly 16 jobs, job at index 0 is for ant 0 and so forth.
/// The default split comes first, then the split by chance, then the three
/// counts of the settings, which have to be given and to add up to 16.
pub fn set_ant_jobs(args: &Args) -> (r: Result<Vec<AntJob>, AntsError>)
    ensures
        args.default_jobs ==> r is Ok && r->Ok_0@ == job_table(7, 7, 2),
        !args.default_jobs && args.random_jobs ==> r is Ok && r->Ok_0@.len() == TEAM_SIZE,
        !args.default_jobs && !args.random_jobs ==> match requested_counts(*args) {
            Some((g, o, w)) => r is Ok && r->Ok_0@ == job_table(g, o, w),
            None => r is Err && r->Err_0 == AntsError::InvalidRoleAssignment,
        },
        r is Ok ==> r->Ok_0@.len() == TEAM_SIZE,
{
    let mut jobs: Vec<AntJob> = Vec::new();
    if args.default_jobs {
        push_jobs(&mut jobs, AntJob::Gatherer, 7);
        push_jobs(&mut jobs, AntJob::Offensive, 7);
        push_jobs(&mut jobs, AntJob::WasteMover, 2);
    } else if args.random_jobs {
        let mut done: usize = 0;
        while done < TEAM_SIZE
            invariant
                done <= TEAM_SIZE,
                jobs@.len() == done,
            decreases TEAM_SIZE - done,
        {
            let index: u8 = random_in(0, 3);
            jobs.push(AntJob::from_index(index));
            done += 1;
        }
    } else {
        match (args.gatherer_ants, args.offensive_ants, args.waste_mover_ants) {
            (Some(g), Some(o), Some(w)) => {
                if g as usize + o as usize + w as usize != TEAM_SIZE {
                    return Err(AntsError::InvalidRoleAssignment);
                }
                push_jobs(&mut jobs, AntJob::Gatherer, g);
                push_jobs(&mut jobs, AntJob::Offensive, o);
                push_jobs(&mut jobs, AntJob::WasteMover, w);
            },
            _ => {
                return Err(AntsError::InvalidRoleAssignment);
            },
        }
    }
    Ok(jobs)
}

/// What is to be said of the kinds of ants and of the order in which an ant
/// decides what to do.
pub open spec fn ant_help_text() -> Seq<char> {
    "All ants have the following priorities:\n"@
        + " 1. If health is <= 3 move to base\n"@
        + " 2. if toxins are carried deliver them to base of enemy with most points\n"@
        + " 3. Job specific tasks\n\n"@
        + "Gatherer ants:\n"@
        + " 1. Move home when sugar is carried\n"@
        + " 2. Walk thowards nearest piece of sugar\n"@
        + " 3. If there is no nearest sugar remain at current position\n\n"@
        + "Offensive ants:\n"@
        + " 1. Attack nearest enemy ant with at most 'max_health' amount of health\n"@
        + " 2. Gatherer ants tasks\n\n"@
        + "Waste mover ants:\n"@
        + " 1. Walk thowards nearest toxic waste\n"@
        + " 2. Offensive ants tasks\n"@
}

/// Returns help about the different ant types and what the priority of actions is.
pub fn ant_help() -> (help: String)
    ensures
        help@ == ant_help_text(),
{
    let mut s = String::from_str("All ants have the following priorities:\n");
    s.append(" 1. If health is <= 3 move to base\n");
    s.append(" 2. if toxins are carried deliver them to base of enemy with most points\n");
    s.append(" 3. Job specific tasks\n\n");
    s.append("Gatherer ants:\n");
    s.append(" 1. Move home when sugar is carried\n");
    s.append(" 2. Walk thowards nearest piece of sugar\n");
    s.append(" 3. If there is no nearest sugar remain at current position\n\n");
    s.append("Offensive ants:\n");
    s.append(" 1. Attack nearest enemy ant with at most 'max_health' amount of health\n");
    s.append(" 2. Gatherer ants tasks\n\n");
    s.append("Waste mover ants:\n");
    s.append(" 1. Walk thowards nearest toxic waste\n");
    s.append(" 2. Offensive ants tasks\n");
    s
}

} // verus!
