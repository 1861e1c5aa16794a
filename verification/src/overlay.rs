use vstd::prelude::*;

verus! {

/// The team a player belongs to, stored in game memory as 1, 2 or 3.
#[derive(Clone, Copy, Debug, PartialEq, Eq, Structural)]
pub enum Team {
    Spectator,
    Terrorist,
    CounterTerrorist,
}

pub open spec fn team_code(team: Team) -> u32 {
    match team {
        Team::Spectator => 1,
        Team::Terrorist => 2,
        Team::CounterTerrorist => 3,
    }
}

impl Team {
    /// The number the game stores for this team.
    pub fn code(self) -> (c: u32)
        ensures
            c == team_code(self),
    {
        match self {
            Team::Spectator => 1,
            Team::Terrorist => 2,
            Team::CounterTerrorist => 3,
        }
    }

    /// The team the game's number stands for, if any.
    pub fn from_code(code: u32) -> (team: Option<Team>)
        ensures
            match team {
                Some(t) => team_code(t) == code,
                None => code < 1 || code > 3,
            },
    {
        match code {
            1 => Some(Team::Spectator),
            2 => Some(Team::Terrorist),
            3 => Some(Team::CounterTerrorist),
            _ => None,
        }
    }
}

/// Where on a target the aim goes.
#[derive(Clone, Copy, Debug, PartialEq, Eq, Structural)]
pub enum AimPoint {
    HeadStanding,
    Belly,
    FootPosition,
}

/// A player slot of the radar is in use when its valid counter is not 0.
pub fn player_is_valid(valid: u32) -> (b: bool)
    ensures
        b == (valid > 0),
{
    valid > 0
}

/// A player is alive and playing when its slot is in use, it is not a
/// spectator and it has health left.
pub fn player_is_alive_and_playing(valid: u32, team: Team, health: u32) -> (b: bool)
    ensures
        b == (valid > 0 && team != Team::Spectator && health > 0),
{
    player_is_valid(valid) && team != Team::Spectator && health > 0
}

/// The radar slot of the player under the crosshair: the local player's
/// target id counts players from 1, and 0 means no player.
pub fn crosshair_player_index(target_id: u32, player_count: usize) -> (index: Option<usize>)
    ensures
        index == if target_id > 0 && (target_id - 1) < player_count {
            Some((target_id - 1) as usize)
        } else {
            None::<usize>
        },
{
    let is_aiming_at_object = target_id > 0;
    if is_aiming_at_object {
        let player_array_index = target_id - 1;
        if (player_array_index as u64) < (player_count as u64) {
            Some(player_array_index as usize)
        } else {
            None
        }
    } else {
        None
    }
}

/// A player may be aimed at when alive and playing, and, unless friendly
/// fire is on, on another team than the local player.
pub fn is_target_candidate(alive_and_playing: bool, friendly_fire: bool, team: Team, local_team: Team) -> (b: bool)
    ensures
        b == (alive_and_playing && (friendly_fire || team != local_team)),
{
    alive_and_playing && (friendly_fire || team != local_team)
}

} // verus!
