//! Executable direction tables and facts about rays.
use vstd::prelude::*;

use crate::rules::{spec_direction, spec_jump_delta, spec_ray};
use crate::square::Square;

verus! {

/// Knight jumps or king steps, in generation order.
pub fn jump_delta(king: bool, i: usize) -> (r: (i8, i8))
    requires
        i < 8,
    ensures
        r.0 as int == spec_jump_delta(king, i as int).0,
        r.1 as int == spec_jump_delta(king, i as int).1,
{
    if king {
        match i {
            0 => (-1, -1),
            1 => (-1, 0),
            2 => (-1, 1),
            3 => (0, -1),
            4 => (0, 1),
            5 => (1, -1),
            6 => (1, 0),
            _ => (1, 1),
        }
    } else {
        match i {
            0 => (-2, -1),
            1 => (-2, 1),
            2 => (-1, -2),
            3 => (-1, 2),
            4 => (1, -2),
            5 => (1, 2),
            6 => (2, -1),
            _ => (2, 1),
        }
    }
}

/// The diagonals then the lines, as in `spec_direction`.
pub fn direction(i: usize) -> (r: (i8, i8))
    requires
        i < 8,
    ensures
        r.0 as int == spec_direction(i as int).0,
        r.1 as int == spec_direction(i as int).1,
{
    match i {
        0 => (-1, -1),
        1 => (-1, 1),
        2 => (1, -1),
        3 => (1, 1),
        4 => (-1, 0),
        5 => (1, 0),
        6 => (0, -1),
        _ => (0, 1),
    }
}

/// After `j >= 1` steps a ray stands on the board, `j` steps from its start.
pub proof fn lemma_ray_position(s: Square, df: int, dr: int, j: nat)
    requires
        j >= 1,
        spec_ray(s, df, dr, j) is Some,
    ensures
        spec_ray(s, df, dr, j).unwrap().spec_is_on_board(),
        spec_ray(s, df, dr, j).unwrap().file == s.file + j * df,
        spec_ray(s, df, dr, j).unwrap().rank == s.rank + j * dr,
        spec_ray(s, df, dr, 1) is Some,
    decreases j,
{
    if j == 1 {
        assert(spec_ray(s, df, dr, 0) == Some(s));
        assert(spec_ray(s, df, dr, 1) == s.spec_offset(df, dr));
        assert(1 * df == df && 1 * dr == dr);
    } else {
        let prev = spec_ray(s, df, dr, (j - 1) as nat);
        assert(prev is Some);
        lemma_ray_position(s, df, dr, (j - 1) as nat);
        let c = prev.unwrap();
        assert(spec_ray(s, df, dr, j) == c.spec_offset(df, dr));
        assert(j * df == (j - 1) * df + df) by (nonlinear_arith);
        assert(j * dr == (j - 1) * dr + dr) by (nonlinear_arith);
    }
}

/// A ray that has left the board never comes back.
pub proof fn lemma_ray_stays_off(s: Square, df: int, dr: int, j: nat, k: nat)
    requires
        j <= k,
        spec_ray(s, df, dr, j) is None,
    ensures
        spec_ray(s, df, dr, k) is None,
    decreases k - j,
{
    if j < k {
        lemma_ray_stays_off(s, df, dr, j, (k - 1) as nat);
    }
}

/// A ray in one of the eight directions leaves the board within eight steps.
pub proof fn lemma_ray_bounded(s: Square, i: int, j: nat)
    requires
        0 <= i < 8,
        spec_ray(s, spec_direction(i).0, spec_direction(i).1, j) is Some,
        j >= 1,
    ensures
        j <= 8,
{
    let df = spec_direction(i).0;
    let dr = spec_direction(i).1;
    lemma_ray_position(s, df, dr, j);
    lemma_ray_position(s, df, dr, 1);
    if df == 1 || df == -1 {
        assert(j * df == j || j * df == -j) by (nonlinear_arith)
            requires
                df == 1 || df == -1,
        ;
    } else {
        assert(dr == 1 || dr == -1);
        assert(j * dr == j || j * dr == -j) by (nonlinear_arith)
            requires
                dr == 1 || dr == -1,
        ;
    }
}

} // verus!
