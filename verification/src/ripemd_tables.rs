//! Round tables of the RIPEMD-160 compression function: message-word
//! selection and rotation amounts for the left and right pipelines, as
//! published in the RIPEMD-160 specification.

use vstd::prelude::*;

verus! {

/// Message word selected by round `j` of the left line.
pub open spec fn rl_word(j: int) -> int {
    if j == 0 { 0 } else if j == 1 { 1 } else if j == 2 { 2 } else if j == 3 { 3 } else if j ==
    4 { 4 } else if j == 5 { 5 } else if j == 6 { 6 } else if j == 7 { 7 } else if j == 8 { 8 }
    else if j == 9 { 9 } else if j == 10 { 10 } else if j == 11 { 11 } else if j == 12 { 12 }
    else if j == 13 { 13 } else if j == 14 { 14 } else if j == 15 { 15 } else if j == 16 { 7 }
    else if j == 17 { 4 } else if j == 18 { 13 } else if j == 19 { 1 } else if j == 20 { 10 }
    else if j == 21 { 6 } else if j == 22 { 15 } else if j == 23 { 3 } else if j == 24 { 12 }
    else if j == 25 { 0 } else if j == 26 { 9 } else if j == 27 { 5 } else if j == 28 { 2 } else
    if j == 29 { 14 } else if j == 30 { 11 } else if j == 31 { 8 } else if j == 32 { 3 } else if
    j == 33 { 10 } else if j == 34 { 14 } else if j == 35 { 4 } else if j == 36 { 9 } else if j
    == 37 { 15 } else if j == 38 { 8 } else if j == 39 { 1 } else if j == 40 { 2 } else if j ==
    41 { 7 } else if j == 42 { 0 } else if j == 43 { 6 } else if j == 44 { 13 } else if j == 45
    { 11 } else if j == 46 { 5 } else if j == 47 { 12 } else if j == 48 { 1 } else if j == 49 {
    9 } else if j == 50 { 11 } else if j == 51 { 10 } else if j == 52 { 0 } else if j == 53 { 8
    } else if j == 54 { 12 } else if j == 55 { 4 } else if j == 56 { 13 } else if j == 57 { 3 }
    else if j == 58 { 7 } else if j == 59 { 15 } else if j == 60 { 14 } else if j == 61 { 5 }
    else if j == 62 { 6 } else if j == 63 { 2 } else if j == 64 { 4 } else if j == 65 { 0 } else
    if j == 66 { 5 } else if j == 67 { 9 } else if j == 68 { 7 } else if j == 69 { 12 } else if
    j == 70 { 2 } else if j == 71 { 10 } else if j == 72 { 14 } else if j == 73 { 1 } else if j
    == 74 { 3 } else if j == 75 { 8 } else if j == 76 { 11 } else if j == 77 { 6 } else if j ==
    78 { 15 } else { 13 }
}

pub fn rl_word_x(j: usize) -> (r: usize)
    requires
        j < 80,
    ensures
        r as int == rl_word(j as int),
        r < 16,
{
    match j {
        0 => 0,
        1 => 1,
        2 => 2,
        3 => 3,
        4 => 4,
        5 => 5,
        6 => 6,
        7 => 7,
        8 => 8,
        9 => 9,
        10 => 10,
        11 => 11,
        12 => 12,
        13 => 13,
        14 => 14,
        15 => 15,
        16 => 7,
        17 => 4,
        18 => 13,
        19 => 1,
        20 => 10,
        21 => 6,
        22 => 15,
        23 => 3,
        24 => 12,
        25 => 0,
        26 => 9,
        27 => 5,
        28 => 2,
        29 => 14,
        30 => 11,
        31 => 8,
        32 => 3,
        33 => 10,
        34 => 14,
        35 => 4,
        36 => 9,
        37 => 15,
        38 => 8,
        39 => 1,
        40 => 2,
        41 => 7,
        42 => 0,
        43 => 6,
        44 => 13,
        45 => 11,
        46 => 5,
        47 => 12,
        48 => 1,
        49 => 9,
        50 => 11,
        51 => 10,
        52 => 0,
        53 => 8,
        54 => 12,
        55 => 4,
        56 => 13,
        57 => 3,
        58 => 7,
        59 => 15,
        60 => 14,
        61 => 5,
        62 => 6,
        63 => 2,
        64 => 4,
        65 => 0,
        66 => 5,
        67 => 9,
        68 => 7,
        69 => 12,
        70 => 2,
        71 => 10,
        72 => 14,
        73 => 1,
        74 => 3,
        75 => 8,
        76 => 11,
        77 => 6,
        78 => 15,
        _ => 13,
    }
}

/// Message word selected by round `j` of the right line.
pub open spec fn rr_word(j: int) -> int {
    if j == 0 { 5 } else if j == 1 { 14 } else if j == 2 { 7 } else if j == 3 { 0 } else if j ==
    4 { 9 } else if j == 5 { 2 } else if j == 6 { 11 } else if j == 7 { 4 } else if j == 8 { 13
    } else if j == 9 { 6 } else if j == 10 { 15 } else if j == 11 { 8 } else if j == 12 { 1 }
    else if j == 13 { 10 } else if j == 14 { 3 } else if j == 15 { 12 } else if j == 16 { 6 }
    else if j == 17 { 11 } else if j == 18 { 3 } else if j == 19 { 7 } else if j == 20 { 0 }
    else if j == 21 { 13 } else if j == 22 { 5 } else if j == 23 { 10 } else if j == 24 { 14 }
    else if j == 25 { 15 } else if j == 26 { 8 } else if j == 27 { 12 } else if j == 28 { 4 }
    else if j == 29 { 9 } else if j == 30 { 1 } else if j == 31 { 2 } else if j == 32 { 15 }
    else if j == 33 { 5 } else if j == 34 { 1 } else if j == 35 { 3 } else if j == 36 { 7 } else
    if j == 37 { 14 } else if j == 38 { 6 } else if j == 39 { 9 } else if j == 40 { 11 } else if
    j == 41 { 8 } else if j == 42 { 12 } else if j == 43 { 2 } else if j == 44 { 10 } else if j
    == 45 { 0 } else if j == 46 { 4 } else if j == 47 { 13 } else if j == 48 { 8 } else if j ==
    49 { 6 } else if j == 50 { 4 } else if j == 51 { 1 } else if j == 52 { 3 } else if j == 53 {
    11 } else if j == 54 { 15 } else if j == 55 { 0 } else if j == 56 { 5 } else if j == 57 { 12
    } else if j == 58 { 2 } else if j == 59 { 13 } else if j == 60 { 9 } else if j == 61 { 7 }
    else if j == 62 { 10 } else if j == 63 { 14 } else if j == 64 { 12 } else if j == 65 { 15 }
    else if j == 66 { 10 } else if j == 67 { 4 } else if j == 68 { 1 } else if j == 69 { 5 }
    else if j == 70 { 8 } else if j == 71 { 7 } else if j == 72 { 6 } else if j == 73 { 2 } else
    if j == 74 { 13 } else if j == 75 { 14 } else if j == 76 { 0 } else if j == 77 { 3 } else if
    j == 78 { 9 } else { 11 }
}

pub fn rr_word_x(j: usize) -> (r: usize)
    requires
        j < 80,
    ensures
        r as int == rr_word(j as int),
        r < 16,
{
    match j {
        0 => 5,
        1 => 14,
        2 => 7,
        3 => 0,
        4 => 9,
        5 => 2,
        6 => 11,
        7 => 4,
        8 => 13,
        9 => 6,
        10 => 15,
        11 => 8,
        12 => 1,
        13 => 10,
        14 => 3,
        15 => 12,
        16 => 6,
        17 => 11,
        18 => 3,
        19 => 7,
        20 => 0,
        21 => 13,
        22 => 5,
        23 => 10,
        24 => 14,
        25 => 15,
        26 => 8,
        27 => 12,
        28 => 4,
        29 => 9,
        30 => 1,
        31 => 2,
        32 => 15,
        33 => 5,
        34 => 1,
        35 => 3,
        36 => 7,
        37 => 14,
        38 => 6,
        39 => 9,
        40 => 11,
        41 => 8,
        42 => 12,
        43 => 2,
        44 => 10,
        45 => 0,
        46 => 4,
        47 => 13,
        48 => 8,
        49 => 6,
        50 => 4,
        51 => 1,
        52 => 3,
        53 => 11,
        54 => 15,
        55 => 0,
        56 => 5,
        57 => 12,
        58 => 2,
        59 => 13,
        60 => 9,
        61 => 7,
        62 => 10,
        63 => 14,
        64 => 12,
        65 => 15,
        66 => 10,
        67 => 4,
        68 => 1,
        69 => 5,
        70 => 8,
        71 => 7,
        72 => 6,
        73 => 2,
        74 => 13,
        75 => 14,
        76 => 0,
        77 => 3,
        78 => 9,
        _ => 11,
    }
}

/// Left-rotation amount of round `j` of the left line.
pub open spec fn rl_rot(j: int) -> int {
    if j == 0 { 11 } else if j == 1 { 14 } else if j == 2 { 15 } else if j == 3 { 12 } else if j
    == 4 { 5 } else if j == 5 { 8 } else if j == 6 { 7 } else if j == 7 { 9 } else if j == 8 {
    11 } else if j == 9 { 13 } else if j == 10 { 14 } else if j == 11 { 15 } else if j == 12 { 6
    } else if j == 13 { 7 } else if j == 14 { 9 } else if j == 15 { 8 } else if j == 16 { 7 }
    else if j == 17 { 6 } else if j == 18 { 8 } else if j == 19 { 13 } else if j == 20 { 11 }
    else if j == 21 { 9 } else if j == 22 { 7 } else if j == 23 { 15 } else if j == 24 { 7 }
    else if j == 25 { 12 } else if j == 26 { 15 } else if j == 27 { 9 } else if j == 28 { 11 }
    else if j == 29 { 7 } else if j == 30 { 13 } else if j == 31 { 12 } else if j == 32 { 11 }
    else if j == 33 { 13 } else if j == 34 { 6 } else if j == 35 { 7 } else if j == 36 { 14 }
    else if j == 37 { 9 } else if j == 38 { 13 } else if j == 39 { 15 } else if j == 40 { 14 }
    else if j == 41 { 8 } else if j == 42 { 13 } else if j == 43 { 6 } else if j == 44 { 5 }
    else if j == 45 { 12 } else if j == 46 { 7 } else if j == 47 { 5 } else if j == 48 { 11 }
    else if j == 49 { 12 } else if j == 50 { 14 } else if j == 51 { 15 } else if j == 52 { 14 }
    else if j == 53 { 15 } else if j == 54 { 9 } else if j == 55 { 8 } else if j == 56 { 9 }
    else if j == 57 { 14 } else if j == 58 { 5 } else if j == 59 { 6 } else if j == 60 { 8 }
    else if j == 61 { 6 } else if j == 62 { 5 } else if j == 63 { 12 } else if j == 64 { 9 }
    else if j == 65 { 15 } else if j == 66 { 5 } else if j == 67 { 11 } else if j == 68 { 6 }
    else if j == 69 { 8 } else if j == 70 { 13 } else if j == 71 { 12 } else if j == 72 { 5 }
    else if j == 73 { 12 } else if j == 74 { 13 } else if j == 75 { 14 } else if j == 76 { 11 }
    else if j == 77 { 8 } else if j == 78 { 5 } else { 6 }
}

pub fn rl_rot_x(j: usize) -> (r: usize)
    requires
        j < 80,
    ensures
        r as int == rl_rot(j as int),
        0 < r < 16,
{
    match j {
        0 => 11,
        1 => 14,
        2 => 15,
        3 => 12,
        4 => 5,
        5 => 8,
        6 => 7,
        7 => 9,
        8 => 11,
        9 => 13,
        10 => 14,
        11 => 15,
        12 => 6,
        13 => 7,
        14 => 9,
        15 => 8,
        16 => 7,
        17 => 6,
        18 => 8,
        19 => 13,
        20 => 11,
        21 => 9,
        22 => 7,
        23 => 15,
        24 => 7,
        25 => 12,
        26 => 15,
        27 => 9,
        28 => 11,
        29 => 7,
        30 => 13,
        31 => 12,
        32 => 11,
        33 => 13,
        34 => 6,
        35 => 7,
        36 => 14,
        37 => 9,
        38 => 13,
        39 => 15,
        40 => 14,
        41 => 8,
        42 => 13,
        43 => 6,
        44 => 5,
        45 => 12,
        46 => 7,
        47 => 5,
        48 => 11,
        49 => 12,
        50 => 14,
        51 => 15,
        52 => 14,
        53 => 15,
        54 => 9,
        55 => 8,
        56 => 9,
        57 => 14,
        58 => 5,
        59 => 6,
        60 => 8,
        61 => 6,
        62 => 5,
        63 => 12,
        64 => 9,
        65 => 15,
        66 => 5,
        67 => 11,
        68 => 6,
        69 => 8,
        70 => 13,
        71 => 12,
        72 => 5,
        73 => 12,
        74 => 13,
        75 => 14,
        76 => 11,
        77 => 8,
        78 => 5,
        _ => 6,
    }
}

/// Left-rotation amount of round `j` of the right line.
pub open spec fn rr_rot(j: int) -> int {
    if j == 0 { 8 } else if j == 1 { 9 } else if j == 2 { 9 } else if j == 3 { 11 } else if j ==
    4 { 13 } else if j == 5 { 15 } else if j == 6 { 15 } else if j == 7 { 5 } else if j == 8 { 7
    } else if j == 9 { 7 } else if j == 10 { 8 } else if j == 11 { 11 } else if j == 12 { 14 }
    else if j == 13 { 14 } else if j == 14 { 12 } else if j == 15 { 6 } else if j == 16 { 9 }
    else if j == 17 { 13 } else if j == 18 { 15 } else if j == 19 { 7 } else if j == 20 { 12 }
    else if j == 21 { 8 } else if j == 22 { 9 } else if j == 23 { 11 } else if j == 24 { 7 }
    else if j == 25 { 7 } else if j == 26 { 12 } else if j == 27 { 7 } else if j == 28 { 6 }
    else if j == 29 { 15 } else if j == 30 { 13 } else if j == 31 { 11 } else if j == 32 { 9 }
    else if j == 33 { 7 } else if j == 34 { 15 } else if j == 35 { 11 } else if j == 36 { 8 }
    else if j == 37 { 6 } else if j == 38 { 6 } else if j == 39 { 14 } else if j == 40 { 12 }
    else if j == 41 { 13 } else if j == 42 { 5 } else if j == 43 { 14 } else if j == 44 { 13 }
    else if j == 45 { 13 } else if j == 46 { 7 } else if j == 47 { 5 } else if j == 48 { 15 }
    else if j == 49 { 5 } else if j == 50 { 8 } else if j == 51 { 11 } else if j == 52 { 14 }
    else if j == 53 { 14 } else if j == 54 { 6 } else if j == 55 { 14 } else if j == 56 { 6 }
    else if j == 57 { 9 } else if j == 58 { 12 } else if j == 59 { 9 } else if j == 60 { 12 }
    else if j == 61 { 5 } else if j == 62 { 15 } else if j == 63 { 8 } else if j == 64 { 8 }
    else if j == 65 { 5 } else if j == 66 { 12 } else if j == 67 { 9 } else if j == 68 { 12 }
    else if j == 69 { 5 } else if j == 70 { 14 } else if j == 71 { 6 } else if j == 72 { 8 }
    else if j == 73 { 13 } else if j == 74 { 6 } else if j == 75 { 5 } else if j == 76 { 15 }
    else if j == 77 { 13 } else if j == 78 { 11 } else { 11 }
}

pub fn rr_rot_x(j: usize) -> (r: usize)
    requires
        j < 80,
    ensures
        r as int == rr_rot(j as int),
        0 < r < 16,
{
    match j {
        0 => 8,
        1 => 9,
        2 => 9,
        3 => 11,
        4 => 13,
        5 => 15,
        6 => 15,
        7 => 5,
        8 => 7,
        9 => 7,
        10 => 8,
        11 => 11,
        12 => 14,
        13 => 14,
        14 => 12,
        15 => 6,
        16 => 9,
        17 => 13,
        18 => 15,
        19 => 7,
        20 => 12,
        21 => 8,
        22 => 9,
        23 => 11,
        24 => 7,
        25 => 7,
        26 => 12,
        27 => 7,
        28 => 6,
        29 => 15,
        30 => 13,
        31 => 11,
        32 => 9,
        33 => 7,
        34 => 15,
        35 => 11,
        36 => 8,
        37 => 6,
        38 => 6,
        39 => 14,
        40 => 12,
        41 => 13,
        42 => 5,
        43 => 14,
        44 => 13,
        45 => 13,
        46 => 7,
        47 => 5,
        48 => 15,
        49 => 5,
        50 => 8,
        51 => 11,
        52 => 14,
        53 => 14,
        54 => 6,
        55 => 14,
        56 => 6,
        57 => 9,
        58 => 12,
        59 => 9,
        60 => 12,
        61 => 5,
        62 => 15,
        63 => 8,
        64 => 8,
        65 => 5,
        66 => 12,
        67 => 9,
        68 => 12,
        69 => 5,
        70 => 14,
        71 => 6,
        72 => 8,
        73 => 13,
        74 => 6,
        75 => 5,
        76 => 15,
        77 => 13,
        78 => 11,
        _ => 11,
    }
}

} // verus!
