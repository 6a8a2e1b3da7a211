use vstd::prelude::*;

verus! {

/// Whether an army can move from the province at position `a` to the one at `b`.
pub open spec fn spec_army_adj(a: int, b: int) -> bool {
    if a == 2 { b == 28 || b == 56 || b == 69 }
    else if a == 3 { b == 5 || b == 20 || b == 60 }
    else if a == 4 { b == 44 || b == 53 || b == 75 }
    else if a == 5 { b == 3 || b == 57 || b == 60 || b == 68 }
    else if a == 8 { b == 18 || b == 30 || b == 49 || b == 54 }
    else if a == 9 { b == 33 || b == 41 || b == 52 || b == 58 }
    else if a == 11 { b == 26 || b == 41 || b == 58 || b == 72 || b == 76 }
    else if a == 13 { b == 27 || b == 48 || b == 49 }
    else if a == 14 { b == 26 || b == 55 || b == 56 || b == 69 || b == 76 }
    else if a == 15 { b == 20 || b == 28 || b == 55 || b == 56 }
    else if a == 18 { b == 8 || b == 27 || b == 39 || b == 41 || b == 48 || b == 49 || b == 54 }
    else if a == 19 { b == 23 || b == 36 }
    else if a == 20 { b == 3 || b == 15 || b == 60 }
    else if a == 21 { b == 33 || b == 67 }
    else if a == 23 { b == 19 || b == 36 || b == 80 }
    else if a == 25 { b == 47 || b == 64 || b == 67 }
    else if a == 26 { b == 11 || b == 14 || b == 55 || b == 58 || b == 74 || b == 76 || b == 78 }
    else if a == 27 { b == 13 || b == 18 || b == 39 || b == 48 || b == 61 }
    else if a == 28 { b == 2 || b == 15 || b == 56 }
    else if a == 30 { b == 8 || b == 33 || b == 54 }
    else if a == 33 { b == 9 || b == 21 || b == 30 || b == 41 || b == 54 }
    else if a == 34 { b == 77 || b == 80 }
    else if a == 35 { b == 40 || b == 52 || b == 64 || b == 78 }
    else if a == 36 { b == 19 || b == 23 || b == 77 || b == 80 }
    else if a == 39 { b == 18 || b == 27 || b == 50 || b == 61 }
    else if a == 40 { b == 35 || b == 57 || b == 64 || b == 74 || b == 78 }
    else if a == 41 { b == 9 || b == 11 || b == 18 || b == 33 || b == 54 || b == 58 || b == 72 }
    else if a == 42 { b == 70 }
    else if a == 44 { b == 4 || b == 53 }
    else if a == 47 { b == 25 || b == 64 || b == 67 }
    else if a == 48 { b == 13 || b == 18 || b == 27 || b == 49 }
    else if a == 49 { b == 8 || b == 13 || b == 18 || b == 48 }
    else if a == 50 { b == 39 || b == 71 || b == 72 || b == 75 }
    else if a == 51 { b == 61 }
    else if a == 52 { b == 9 || b == 35 || b == 58 || b == 78 }
    else if a == 53 { b == 4 || b == 44 || b == 71 || b == 75 }
    else if a == 54 { b == 8 || b == 18 || b == 30 || b == 33 || b == 41 }
    else if a == 55 { b == 14 || b == 15 || b == 26 || b == 56 || b == 57 || b == 74 }
    else if a == 56 { b == 2 || b == 14 || b == 15 || b == 28 || b == 55 || b == 69 }
    else if a == 57 { b == 5 || b == 40 || b == 55 || b == 74 }
    else if a == 58 { b == 9 || b == 11 || b == 26 || b == 41 || b == 52 || b == 78 }
    else if a == 60 { b == 3 || b == 5 || b == 20 || b == 68 }
    else if a == 61 { b == 27 || b == 39 || b == 51 }
    else if a == 64 { b == 25 || b == 35 || b == 40 || b == 47 }
    else if a == 67 { b == 21 || b == 25 || b == 47 }
    else if a == 68 { b == 5 || b == 60 }
    else if a == 69 { b == 2 || b == 14 || b == 56 || b == 72 || b == 75 || b == 76 }
    else if a == 70 { b == 42 }
    else if a == 71 { b == 50 || b == 53 || b == 75 }
    else if a == 72 { b == 11 || b == 41 || b == 50 || b == 69 || b == 75 || b == 76 }
    else if a == 74 { b == 26 || b == 40 || b == 55 || b == 57 || b == 78 }
    else if a == 75 { b == 4 || b == 50 || b == 53 || b == 69 || b == 71 || b == 72 }
    else if a == 76 { b == 11 || b == 14 || b == 26 || b == 69 || b == 72 }
    else if a == 77 { b == 34 || b == 36 || b == 80 }
    else if a == 78 { b == 26 || b == 35 || b == 40 || b == 52 || b == 58 || b == 74 }
    else if a == 80 { b == 23 || b == 34 || b == 36 || b == 77 }
    else { false }
}

/// Whether a fleet can move from the province (or coast) at position `a` to the one at `b`.
pub open spec fn spec_fleet_adj(a: int, b: int) -> bool {
    if a == 0 { b == 2 || b == 4 || b == 31 || b == 69 || b == 75 }
    else if a == 1 { b == 17 || b == 20 || b == 22 || b == 28 || b == 31 || b == 60 }
    else if a == 2 { b == 0 || b == 28 || b == 31 || b == 69 }
    else if a == 3 { b == 5 || b == 10 || b == 20 }
    else if a == 4 { b == 0 || b == 31 || b == 44 || b == 75 }
    else if a == 5 { b == 3 || b == 10 || b == 57 }
    else if a == 6 { b == 9 || b == 12 || b == 21 || b == 33 || b == 35 || b == 52 || b == 67 }
    else if a == 7 { b == 46 || b == 47 || b == 65 }
    else if a == 8 { b == 24 || b == 30 || b == 45 || b == 49 }
    else if a == 9 { b == 6 || b == 33 || b == 52 }
    else if a == 10 { b == 3 || b == 5 || b == 16 || b == 20 || b == 55 || b == 57 }
    else if a == 12 { b == 6 || b == 25 || b == 35 || b == 66 || b == 67 }
    else if a == 13 { b == 24 || b == 27 || b == 38 || b == 49 }
    else if a == 16 { b == 10 || b == 20 || b == 55 }
    else if a == 17 { b == 1 || b == 20 || b == 28 }
    else if a == 19 { b == 23 || b == 36 || b == 43 || b == 46 }
    else if a == 20 { b == 1 || b == 3 || b == 10 || b == 16 || b == 17 || b == 60 }
    else if a == 21 { b == 6 || b == 29 || b == 33 || b == 45 || b == 59 || b == 67 }
    else if a == 22 { b == 1 || b == 31 || b == 60 || b == 68 }
    else if a == 23 { b == 19 || b == 45 || b == 46 || b == 80 }
    else if a == 24 { b == 8 || b == 13 || b == 32 || b == 34 || b == 38 || b == 45 || b == 49 || b == 77 }
    else if a == 25 { b == 12 || b == 66 || b == 67 }
    else if a == 27 { b == 13 || b == 38 || b == 62 }
    else if a == 28 { b == 1 || b == 2 || b == 17 || b == 31 }
    else if a == 29 { b == 21 || b == 30 || b == 33 || b == 45 }
    else if a == 30 { b == 8 || b == 29 || b == 33 || b == 45 }
    else if a == 31 { b == 0 || b == 1 || b == 2 || b == 4 || b == 22 || b == 28 || b == 44 || b == 70 || b == 73 }
    else if a == 32 { b == 24 || b == 36 || b == 38 || b == 43 || b == 77 }
    else if a == 33 { b == 6 || b == 9 || b == 21 || b == 29 || b == 30 }
    else if a == 34 { b == 24 || b == 45 || b == 77 || b == 80 }
    else if a == 35 { b == 6 || b == 12 || b == 52 || b == 66 }
    else if a == 36 { b == 19 || b == 32 || b == 43 || b == 77 }
    else if a == 37 { b == 39 || b == 50 || b == 63 || b == 71 || b == 73 || b == 79 }
    else if a == 38 { b == 13 || b == 24 || b == 27 || b == 32 || b == 42 || b == 43 || b == 51 || b == 62 || b == 63 || b == 79 }
    else if a == 39 { b == 37 || b == 50 || b == 63 }
    else if a == 42 { b == 38 || b == 70 || b == 79 }
    else if a == 43 { b == 19 || b == 32 || b == 36 || b == 38 || b == 46 }
    else if a == 44 { b == 4 || b == 31 || b == 53 || b == 73 }
    else if a == 45 { b == 8 || b == 21 || b == 23 || b == 24 || b == 29 || b == 30 || b == 34 || b == 46 || b == 47 || b == 59 || b == 80 }
    else if a == 46 { b == 7 || b == 19 || b == 23 || b == 43 || b == 45 || b == 47 }
    else if a == 47 { b == 7 || b == 45 || b == 46 || b == 59 || b == 65 || b == 67 }
    else if a == 49 { b == 8 || b == 13 || b == 24 }
    else if a == 50 { b == 37 || b == 39 || b == 71 }
    else if a == 51 { b == 38 || b == 62 || b == 63 }
    else if a == 52 { b == 6 || b == 9 || b == 35 }
    else if a == 53 { b == 44 || b == 71 || b == 73 }
    else if a == 55 { b == 10 || b == 16 || b == 57 }
    else if a == 57 { b == 5 || b == 10 || b == 55 }
    else if a == 59 { b == 21 || b == 45 || b == 47 || b == 67 }
    else if a == 60 { b == 1 || b == 20 || b == 22 || b == 68 }
    else if a == 62 { b == 27 || b == 38 || b == 51 }
    else if a == 63 { b == 37 || b == 38 || b == 39 || b == 51 || b == 79 }
    else if a == 65 { b == 7 || b == 47 }
    else if a == 66 { b == 12 || b == 25 || b == 35 }
    else if a == 67 { b == 6 || b == 12 || b == 21 || b == 25 || b == 47 || b == 59 }
    else if a == 68 { b == 22 || b == 60 }
    else if a == 69 { b == 0 || b == 2 || b == 75 }
    else if a == 70 { b == 31 || b == 42 || b == 73 || b == 79 }
    else if a == 71 { b == 37 || b == 50 || b == 53 || b == 73 }
    else if a == 73 { b == 31 || b == 37 || b == 44 || b == 53 || b == 70 || b == 71 || b == 79 }
    else if a == 75 { b == 0 || b == 4 || b == 69 }
    else if a == 77 { b == 24 || b == 32 || b == 34 || b == 36 }
    else if a == 79 { b == 37 || b == 38 || b == 42 || b == 63 || b == 70 || b == 73 }
    else if a == 80 { b == 23 || b == 34 || b == 45 }
    else { false }
}

/// Whether the (undivided) provinces at positions `a` and `b` share a border.
pub open spec fn spec_area_adj(a: int, b: int) -> bool {
    if a == 0 { b == 2 || b == 4 || b == 31 || b == 69 || b == 75 }
    else if a == 1 { b == 15 || b == 20 || b == 22 || b == 28 || b == 31 || b == 60 }
    else if a == 2 { b == 0 || b == 28 || b == 31 || b == 56 || b == 69 }
    else if a == 3 { b == 5 || b == 10 || b == 20 || b == 60 }
    else if a == 4 { b == 0 || b == 31 || b == 44 || b == 53 || b == 75 }
    else if a == 5 { b == 3 || b == 10 || b == 57 || b == 60 || b == 68 }
    else if a == 6 { b == 9 || b == 12 || b == 21 || b == 33 || b == 35 || b == 52 || b == 67 }
    else if a == 7 { b == 46 || b == 47 || b == 64 }
    else if a == 8 { b == 18 || b == 24 || b == 30 || b == 45 || b == 49 || b == 54 }
    else if a == 9 { b == 6 || b == 33 || b == 41 || b == 52 || b == 58 }
    else if a == 10 { b == 3 || b == 5 || b == 15 || b == 20 || b == 55 || b == 57 }
    else if a == 11 { b == 26 || b == 41 || b == 58 || b == 72 || b == 76 }
    else if a == 12 { b == 6 || b == 25 || b == 35 || b == 64 || b == 67 }
    else if a == 13 { b == 24 || b == 27 || b == 38 || b == 48 || b == 49 }
    else if a == 14 { b == 26 || b == 55 || b == 56 || b == 69 || b == 76 }
    else if a == 15 { b == 1 || b == 10 || b == 20 || b == 28 || b == 55 || b == 56 }
    else if a == 18 { b == 8 || b == 27 || b == 39 || b == 41 || b == 48 || b == 49 || b == 54 }
    else if a == 19 { b == 23 || b == 36 || b == 43 || b == 46 }
    else if a == 20 { b == 1 || b == 3 || b == 10 || b == 15 || b == 60 }
    else if a == 21 { b == 6 || b == 29 || b == 33 || b == 45 || b == 59 || b == 67 }
    else if a == 22 { b == 1 || b == 31 || b == 60 || b == 68 }
    else if a == 23 { b == 19 || b == 36 || b == 45 || b == 46 || b == 80 }
    else if a == 24 { b == 8 || b == 13 || b == 32 || b == 34 || b == 38 || b == 45 || b == 49 || b == 77 }
    else if a == 25 { b == 12 || b == 47 || b == 64 || b == 67 }
    else if a == 26 { b == 11 || b == 14 || b == 55 || b == 58 || b == 74 || b == 76 || b == 78 }
    else if a == 27 { b == 13 || b == 18 || b == 38 || b == 39 || b == 48 || b == 61 }
    else if a == 28 { b == 1 || b == 2 || b == 15 || b == 31 || b == 56 }
    else if a == 29 { b == 21 || b == 30 || b == 33 || b == 45 }
    else if a == 30 { b == 8 || b == 29 || b == 33 || b == 45 || b == 54 }
    else if a == 31 { b == 0 || b == 1 || b == 2 || b == 4 || b == 22 || b == 28 || b == 44 || b == 70 || b == 73 }
    else if a == 32 { b == 24 || b == 36 || b == 38 || b == 43 || b == 77 }
    else if a == 33 { b == 6 || b == 9 || b == 21 || b == 29 || b == 30 || b == 41 || b == 54 }
    else if a == 34 { b == 24 || b == 45 || b == 77 || b == 80 }
    else if a == 35 { b == 6 || b == 12 || b == 40 || b == 52 || b == 64 || b == 78 }
    else if a == 36 { b == 19 || b == 23 || b == 32 || b == 43 || b == 77 || b == 80 }
    else if a == 37 { b == 39 || b == 50 || b == 61 || b == 71 || b == 73 || b == 79 }
    else if a == 38 { b == 13 || b == 24 || b == 27 || b == 32 || b == 42 || b == 43 || b == 51 || b == 61 || b == 79 }
    else if a == 39 { b == 18 || b == 27 || b == 37 || b == 50 || b == 61 }
    else if a == 40 { b == 35 || b == 57 || b == 64 || b == 74 || b == 78 }
    else if a == 41 { b == 9 || b == 11 || b == 18 || b == 33 || b == 54 || b == 58 || b == 72 }
    else if a == 42 { b == 38 || b == 70 || b == 79 }
    else if a == 43 { b == 19 || b == 32 || b == 36 || b == 38 || b == 46 }
    else if a == 44 { b == 4 || b == 31 || b == 53 || b == 73 }
    else if a == 45 { b == 8 || b == 21 || b == 23 || b == 24 || b == 29 || b == 30 || b == 34 || b == 46 || b == 47 || b == 59 || b == 80 }
    else if a == 46 { b == 7 || b == 19 || b == 23 || b == 43 || b == 45 || b == 47 }
    else if a == 47 { b == 7 || b == 25 || b == 45 || b == 46 || b == 59 || b == 64 || b == 67 }
    else if a == 48 { b == 13 || b == 18 || b == 27 || b == 49 }
    else if a == 49 { b == 8 || b == 13 || b == 18 || b == 24 || b == 48 }
    else if a == 50 { b == 37 || b == 39 || b == 71 || b == 72 || b == 75 }
    else if a == 51 { b == 38 || b == 61 }
    else if a == 52 { b == 6 || b == 9 || b == 35 || b == 58 || b == 78 }
    else if a == 53 { b == 4 || b == 44 || b == 71 || b == 73 || b == 75 }
    else if a == 54 { b == 8 || b == 18 || b == 30 || b == 33 || b == 41 }
    else if a == 55 { b == 10 || b == 14 || b == 15 || b == 26 || b == 56 || b == 57 || b == 74 }
    else if a == 56 { b == 2 || b == 14 || b == 15 || b == 28 || b == 55 || b == 69 }
    else if a == 57 { b == 5 || b == 10 || b == 40 || b == 55 || b == 74 }
    else if a == 58 { b == 9 || b == 11 || b == 26 || b == 41 || b == 52 || b == 78 }
    else if a == 59 { b == 21 || b == 45 || b == 47 || b == 67 }
    else if a == 60 { b == 1 || b == 3 || b == 5 || b == 20 || b == 22 || b == 68 }
    else if a == 61 { b == 27 || b == 37 || b == 38 || b == 39 || b == 51 || b == 79 }
    else if a == 64 { b == 7 || b == 12 || b == 25 || b == 35 || b == 40 || b == 47 }
    else if a == 67 { b == 6 || b == 12 || b == 21 || b == 25 || b == 47 || b == 59 }
    else if a == 68 { b == 5 || b == 22 || b == 60 }
    else if a == 69 { b == 0 || b == 2 || b == 14 || b == 56 || b == 72 || b == 75 || b == 76 }
    else if a == 70 { b == 31 || b == 42 || b == 73 || b == 79 }
    else if a == 71 { b == 37 || b == 50 || b == 53 || b == 73 || b == 75 }
    else if a == 72 { b == 11 || b == 41 || b == 50 || b == 69 || b == 75 || b == 76 }
    else if a == 73 { b == 31 || b == 37 || b == 44 || b == 53 || b == 70 || b == 71 || b == 79 }
    else if a == 74 { b == 26 || b == 40 || b == 55 || b == 57 || b == 78 }
    else if a == 75 { b == 0 || b == 4 || b == 50 || b == 53 || b == 69 || b == 71 || b == 72 }
    else if a == 76 { b == 11 || b == 14 || b == 26 || b == 69 || b == 72 }
    else if a == 77 { b == 24 || b == 32 || b == 34 || b == 36 || b == 80 }
    else if a == 78 { b == 26 || b == 35 || b == 40 || b == 52 || b == 58 || b == 74 }
    else if a == 79 { b == 37 || b == 38 || b == 42 || b == 61 || b == 70 || b == 73 }
    else if a == 80 { b == 23 || b == 34 || b == 36 || b == 45 || b == 77 }
    else { false }
}

/// Whether an army can move from position `a` to position `b`.
pub fn army_adj(a: u8, b: u8) -> (r: bool)
    ensures
        r == spec_army_adj(a as int, b as int),
{
    match a {
        2 => b == 28 || b == 56 || b == 69,
        3 => b == 5 || b == 20 || b == 60,
        4 => b == 44 || b == 53 || b == 75,
        5 => b == 3 || b == 57 || b == 60 || b == 68,
        8 => b == 18 || b == 30 || b == 49 || b == 54,
        9 => b == 33 || b == 41 || b == 52 || b == 58,
        11 => b == 26 || b == 41 || b == 58 || b == 72 || b == 76,
        13 => b == 27 || b == 48 || b == 49,
        14 => b == 26 || b == 55 || b == 56 || b == 69 || b == 76,
        15 => b == 20 || b == 28 || b == 55 || b == 56,
        18 => b == 8 || b == 27 || b == 39 || b == 41 || b == 48 || b == 49 || b == 54,
        19 => b == 23 || b == 36,
        20 => b == 3 || b == 15 || b == 60,
        21 => b == 33 || b == 67,
        23 => b == 19 || b == 36 || b == 80,
        25 => b == 47 || b == 64 || b == 67,
        26 => b == 11 || b == 14 || b == 55 || b == 58 || b == 74 || b == 76 || b == 78,
        27 => b == 13 || b == 18 || b == 39 || b == 48 || b == 61,
        28 => b == 2 || b == 15 || b == 56,
        30 => b == 8 || b == 33 || b == 54,
        33 => b == 9 || b == 21 || b == 30 || b == 41 || b == 54,
        34 => b == 77 || b == 80,
        35 => b == 40 || b == 52 || b == 64 || b == 78,
        36 => b == 19 || b == 23 || b == 77 || b == 80,
        39 => b == 18 || b == 27 || b == 50 || b == 61,
        40 => b == 35 || b == 57 || b == 64 || b == 74 || b == 78,
        41 => b == 9 || b == 11 || b == 18 || b == 33 || b == 54 || b == 58 || b == 72,
        42 => b == 70,
        44 => b == 4 || b == 53,
        47 => b == 25 || b == 64 || b == 67,
        48 => b == 13 || b == 18 || b == 27 || b == 49,
        49 => b == 8 || b == 13 || b == 18 || b == 48,
        50 => b == 39 || b == 71 || b == 72 || b == 75,
        51 => b == 61,
        52 => b == 9 || b == 35 || b == 58 || b == 78,
        53 => b == 4 || b == 44 || b == 71 || b == 75,
        54 => b == 8 || b == 18 || b == 30 || b == 33 || b == 41,
        55 => b == 14 || b == 15 || b == 26 || b == 56 || b == 57 || b == 74,
        56 => b == 2 || b == 14 || b == 15 || b == 28 || b == 55 || b == 69,
        57 => b == 5 || b == 40 || b == 55 || b == 74,
        58 => b == 9 || b == 11 || b == 26 || b == 41 || b == 52 || b == 78,
        60 => b == 3 || b == 5 || b == 20 || b == 68,
        61 => b == 27 || b == 39 || b == 51,
        64 => b == 25 || b == 35 || b == 40 || b == 47,
        67 => b == 21 || b == 25 || b == 47,
        68 => b == 5 || b == 60,
        69 => b == 2 || b == 14 || b == 56 || b == 72 || b == 75 || b == 76,
        70 => b == 42,
        71 => b == 50 || b == 53 || b == 75,
        72 => b == 11 || b == 41 || b == 50 || b == 69 || b == 75 || b == 76,
        74 => b == 26 || b == 40 || b == 55 || b == 57 || b == 78,
        75 => b == 4 || b == 50 || b == 53 || b == 69 || b == 71 || b == 72,
        76 => b == 11 || b == 14 || b == 26 || b == 69 || b == 72,
        77 => b == 34 || b == 36 || b == 80,
        78 => b == 26 || b == 35 || b == 40 || b == 52 || b == 58 || b == 74,
        80 => b == 23 || b == 34 || b == 36 || b == 77,
        _ => false,
    }
}

/// Whether a fleet can move from position `a` to position `b`.
pub fn fleet_adj(a: u8, b: u8) -> (r: bool)
    ensures
        r == spec_fleet_adj(a as int, b as int),
{
    match a {
        0 => b == 2 || b == 4 || b == 31 || b == 69 || b == 75,
        1 => b == 17 || b == 20 || b == 22 || b == 28 || b == 31 || b == 60,
        2 => b == 0 || b == 28 || b == 31 || b == 69,
        3 => b == 5 || b == 10 || b == 20,
        4 => b == 0 || b == 31 || b == 44 || b == 75,
        5 => b == 3 || b == 10 || b == 57,
        6 => b == 9 || b == 12 || b == 21 || b == 33 || b == 35 || b == 52 || b == 67,
        7 => b == 46 || b == 47 || b == 65,
        8 => b == 24 || b == 30 || b == 45 || b == 49,
        9 => b == 6 || b == 33 || b == 52,
        10 => b == 3 || b == 5 || b == 16 || b == 20 || b == 55 || b == 57,
        12 => b == 6 || b == 25 || b == 35 || b == 66 || b == 67,
        13 => b == 24 || b == 27 || b == 38 || b == 49,
        16 => b == 10 || b == 20 || b == 55,
        17 => b == 1 || b == 20 || b == 28,
        19 => b == 23 || b == 36 || b == 43 || b == 46,
        20 => b == 1 || b == 3 || b == 10 || b == 16 || b == 17 || b == 60,
        21 => b == 6 || b == 29 || b == 33 || b == 45 || b == 59 || b == 67,
        22 => b == 1 || b == 31 || b == 60 || b == 68,
        23 => b == 19 || b == 45 || b == 46 || b == 80,
        24 => b == 8 || b == 13 || b == 32 || b == 34 || b == 38 || b == 45 || b == 49 || b == 77,
        25 => b == 12 || b == 66 || b == 67,
        27 => b == 13 || b == 38 || b == 62,
        28 => b == 1 || b == 2 || b == 17 || b == 31,
        29 => b == 21 || b == 30 || b == 33 || b == 45,
        30 => b == 8 || b == 29 || b == 33 || b == 45,
        31 => b == 0 || b == 1 || b == 2 || b == 4 || b == 22 || b == 28 || b == 44 || b == 70 || b == 73,
        32 => b == 24 || b == 36 || b == 38 || b == 43 || b == 77,
        33 => b == 6 || b == 9 || b == 21 || b == 29 || b == 30,
        34 => b == 24 || b == 45 || b == 77 || b == 80,
        35 => b == 6 || b == 12 || b == 52 || b == 66,
        36 => b == 19 || b == 32 || b == 43 || b == 77,
        37 => b == 39 || b == 50 || b == 63 || b == 71 || b == 73 || b == 79,
        38 => b == 13 || b == 24 || b == 27 || b == 32 || b == 42 || b == 43 || b == 51 || b == 62 || b == 63 || b == 79,
        39 => b == 37 || b == 50 || b == 63,
        42 => b == 38 || b == 70 || b == 79,
        43 => b == 19 || b == 32 || b == 36 || b == 38 || b == 46,
        44 => b == 4 || b == 31 || b == 53 || b == 73,
        45 => b == 8 || b == 21 || b == 23 || b == 24 || b == 29 || b == 30 || b == 34 || b == 46 || b == 47 || b == 59 || b == 80,
        46 => b == 7 || b == 19 || b == 23 || b == 43 || b == 45 || b == 47,
        47 => b == 7 || b == 45 || b == 46 || b == 59 || b == 65 || b == 67,
        49 => b == 8 || b == 13 || b == 24,
        50 => b == 37 || b == 39 || b == 71,
        51 => b == 38 || b == 62 || b == 63,
        52 => b == 6 || b == 9 || b == 35,
        53 => b == 44 || b == 71 || b == 73,
        55 => b == 10 || b == 16 || b == 57,
        57 => b == 5 || b == 10 || b == 55,
        59 => b == 21 || b == 45 || b == 47 || b == 67,
        60 => b == 1 || b == 20 || b == 22 || b == 68,
        62 => b == 27 || b == 38 || b == 51,
        63 => b == 37 || b == 38 || b == 39 || b == 51 || b == 79,
        65 => b == 7 || b == 47,
        66 => b == 12 || b == 25 || b == 35,
        67 => b == 6 || b == 12 || b == 21 || b == 25 || b == 47 || b == 59,
        68 => b == 22 || b == 60,
        69 => b == 0 || b == 2 || b == 75,
        70 => b == 31 || b == 42 || b == 73 || b == 79,
        71 => b == 37 || b == 50 || b == 53 || b == 73,
        73 => b == 31 || b == 37 || b == 44 || b == 53 || b == 70 || b == 71 || b == 79,
        75 => b == 0 || b == 4 || b == 69,
        77 => b == 24 || b == 32 || b == 34 || b == 36,
        79 => b == 37 || b == 38 || b == 42 || b == 63 || b == 70 || b == 73,
        80 => b == 23 || b == 34 || b == 45,
        _ => false,
    }
}

/// Whether the provinces at positions `a` and `b` share a border.
pub fn area_adj(a: u8, b: u8) -> (r: bool)
    ensures
        r == spec_area_adj(a as int, b as int),
{
    match a {
        0 => b == 2 || b == 4 || b == 31 || b == 69 || b == 75,
        1 => b == 15 || b == 20 || b == 22 || b == 28 || b == 31 || b == 60,
        2 => b == 0 || b == 28 || b == 31 || b == 56 || b == 69,
        3 => b == 5 || b == 10 || b == 20 || b == 60,
        4 => b == 0 || b == 31 || b == 44 || b == 53 || b == 75,
        5 => b == 3 || b == 10 || b == 57 || b == 60 || b == 68,
        6 => b == 9 || b == 12 || b == 21 || b == 33 || b == 35 || b == 52 || b == 67,
        7 => b == 46 || b == 47 || b == 64,
        8 => b == 18 || b == 24 || b == 30 || b == 45 || b == 49 || b == 54,
        9 => b == 6 || b == 33 || b == 41 || b == 52 || b == 58,
        10 => b == 3 || b == 5 || b == 15 || b == 20 || b == 55 || b == 57,
        11 => b == 26 || b == 41 || b == 58 || b == 72 || b == 76,
        12 => b == 6 || b == 25 || b == 35 || b == 64 || b == 67,
        13 => b == 24 || b == 27 || b == 38 || b == 48 || b == 49,
        14 => b == 26 || b == 55 || b == 56 || b == 69 || b == 76,
        15 => b == 1 || b == 10 || b == 20 || b == 28 || b == 55 || b == 56,
        18 => b == 8 || b == 27 || b == 39 || b == 41 || b == 48 || b == 49 || b == 54,
        19 => b == 23 || b == 36 || b == 43 || b == 46,
        20 => b == 1 || b == 3 || b == 10 || b == 15 || b == 60,
        21 => b == 6 || b == 29 || b == 33 || b == 45 || b == 59 || b == 67,
        22 => b == 1 || b == 31 || b == 60 || b == 68,
        23 => b == 19 || b == 36 || b == 45 || b == 46 || b == 80,
        24 => b == 8 || b == 13 || b == 32 || b == 34 || b == 38 || b == 45 || b == 49 || b == 77,
        25 => b == 12 || b == 47 || b == 64 || b == 67,
        26 => b == 11 || b == 14 || b == 55 || b == 58 || b == 74 || b == 76 || b == 78,
        27 => b == 13 || b == 18 || b == 38 || b == 39 || b == 48 || b == 61,
        28 => b == 1 || b == 2 || b == 15 || b == 31 || b == 56,
        29 => b == 21 || b == 30 || b == 33 || b == 45,
        30 => b == 8 || b == 29 || b == 33 || b == 45 || b == 54,
        31 => b == 0 || b == 1 || b == 2 || b == 4 || b == 22 || b == 28 || b == 44 || b == 70 || b == 73,
        32 => b == 24 || b == 36 || b == 38 || b == 43 || b == 77,
        33 => b == 6 || b == 9 || b == 21 || b == 29 || b == 30 || b == 41 || b == 54,
        34 => b == 24 || b == 45 || b == 77 || b == 80,
        35 => b == 6 || b == 12 || b == 40 || b == 52 || b == 64 || b == 78,
        36 => b == 19 || b == 23 || b == 32 || b == 43 || b == 77 || b == 80,
        37 => b == 39 || b == 50 || b == 61 || b == 71 || b == 73 || b == 79,
        38 => b == 13 || b == 24 || b == 27 || b == 32 || b == 42 || b == 43 || b == 51 || b == 61 || b == 79,
        39 => b == 18 || b == 27 || b == 37 || b == 50 || b == 61,
        40 => b == 35 || b == 57 || b == 64 || b == 74 || b == 78,
        41 => b == 9 || b == 11 || b == 18 || b == 33 || b == 54 || b == 58 || b == 72,
        42 => b == 38 || b == 70 || b == 79,
        43 => b == 19 || b == 32 || b == 36 || b == 38 || b == 46,
        44 => b == 4 || b == 31 || b == 53 || b == 73,
        45 => b == 8 || b == 21 || b == 23 || b == 24 || b == 29 || b == 30 || b == 34 || b == 46 || b == 47 || b == 59 || b == 80,
        46 => b == 7 || b == 19 || b == 23 || b == 43 || b == 45 || b == 47,
        47 => b == 7 || b == 25 || b == 45 || b == 46 || b == 59 || b == 64 || b == 67,
        48 => b == 13 || b == 18 || b == 27 || b == 49,
        49 => b == 8 || b == 13 || b == 18 || b == 24 || b == 48,
        50 => b == 37 || b == 39 || b == 71 || b == 72 || b == 75,
        51 => b == 38 || b == 61,
        52 => b == 6 || b == 9 || b == 35 || b == 58 || b == 78,
        53 => b == 4 || b == 44 || b == 71 || b == 73 || b == 75,
        54 => b == 8 || b == 18 || b == 30 || b == 33 || b == 41,
        55 => b == 10 || b == 14 || b == 15 || b == 26 || b == 56 || b == 57 || b == 74,
        56 => b == 2 || b == 14 || b == 15 || b == 28 || b == 55 || b == 69,
        57 => b == 5 || b == 10 || b == 40 || b == 55 || b == 74,
        58 => b == 9 || b == 11 || b == 26 || b == 41 || b == 52 || b == 78,
        59 => b == 21 || b == 45 || b == 47 || b == 67,
        60 => b == 1 || b == 3 || b == 5 || b == 20 || b == 22 || b == 68,
        61 => b == 27 || b == 37 || b == 38 || b == 39 || b == 51 || b == 79,
        64 => b == 7 || b == 12 || b == 25 || b == 35 || b == 40 || b == 47,
        67 => b == 6 || b == 12 || b == 21 || b == 25 || b == 47 || b == 59,
        68 => b == 5 || b == 22 || b == 60,
        69 => b == 0 || b == 2 || b == 14 || b == 56 || b == 72 || b == 75 || b == 76,
        70 => b == 31 || b == 42 || b == 73 || b == 79,
        71 => b == 37 || b == 50 || b == 53 || b == 73 || b == 75,
        72 => b == 11 || b == 41 || b == 50 || b == 69 || b == 75 || b == 76,
        73 => b == 31 || b == 37 || b == 44 || b == 53 || b == 70 || b == 71 || b == 79,
        74 => b == 26 || b == 40 || b == 55 || b == 57 || b == 78,
        75 => b == 0 || b == 4 || b == 50 || b == 53 || b == 69 || b == 71 || b == 72,
        76 => b == 11 || b == 14 || b == 26 || b == 69 || b == 72,
        77 => b == 24 || b == 32 || b == 34 || b == 36 || b == 80,
        78 => b == 26 || b == 35 || b == 40 || b == 52 || b == 58 || b == 74,
        79 => b == 37 || b == 38 || b == 42 || b == 61 || b == 70 || b == 73,
        80 => b == 23 || b == 34 || b == 36 || b == 45 || b == 77,
        _ => false,
    }
}

/// Whether the province at position `i` is divided into coasts.
pub open spec fn spec_has_coasts(i: int) -> bool {
    i == 15 || i == 61 || i == 64
}

/// Whether the province at position `i` is divided into coasts.
pub fn has_coasts(i: u8) -> (r: bool)
    ensures
        r == spec_has_coasts(i as int),
{
    i == 15 || i == 61 || i == 64
}

} // verus!
