//! Pieces of the match listings: the seat a player sat at and a game's description.

use vstd::prelude::*;
use crate::model::LeagueGame;
use crate::render::{push_signed_decimal, signed_decimal_of};

verus! {

/// The seat label of `player_id` at `game`: the first of `E`, `S`, `W`, `N` whose
/// column holds the id, or `?` when none does.
pub open spec fn seat_label_of(game: LeagueGame, player_id: i32) -> Seq<char> {
    if player_id == game.e {
        seq!['E']
    } else if player_id == game.s {
        seq!['S']
    } else if player_id == game.w {
        seq!['W']
    } else if player_id == game.n {
        seq!['N']
    } else {
        seq!['?']
    }
}

/// The seat label of `player_id` at `game`.
pub fn seat_label(game: &LeagueGame, player_id: i32) -> (r: String)
    ensures
        r@ == seat_label_of(*game, player_id),
{
    proof {
        reveal_strlit("E");
        reveal_strlit("S");
        reveal_strlit("W");
        reveal_strlit("N");
        reveal_strlit("?");
    }
    let label = if player_id == game.e {
        "E"
    } else if player_id == game.s {
        "S"
    } else if player_id == game.w {
        "W"
    } else if player_id == game.n {
        "N"
    } else {
        "?"
    };
    assert(label@ =~= seat_label_of(*game, player_id));
    String::from_str(label)
}

pub open spec fn game_description_of(season_num: i32, table_num: i32) -> Seq<char> {
    seq!['S', 'e', 'a', 's', 'o', 'n', ' '] + signed_decimal_of(season_num as int) + seq![
        ' ',
        'T',
        'a',
        'b',
        'l',
        'e',
        ' ',
    ] + signed_decimal_of(table_num as int)
}

/// `Season <season> Table <table>`, the description a stored game is listed with.
pub fn game_description(season_num: i32, table_num: i32) -> (r: String)
    ensures
        r@ == game_description_of(season_num, table_num),
{
    proof {
        reveal_strlit("Season ");
        reveal_strlit(" Table ");
    }
    let mut out = String::from_str("Season ");
    push_signed_decimal(&mut out, season_num);
    out.append(" Table ");
    push_signed_decimal(&mut out, table_num);
    assert(out@ =~= game_description_of(season_num, table_num));
    out
}

} // verus!
