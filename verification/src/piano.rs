//! The picture of the playing keyboard: where each key is drawn, how large
//! and in which shade.

use vstd::prelude::*;
use crate::keyboard::{Keyboard, KEYS};

verus! {

/// Width of a white key, in columns.
pub const WHITE_KEY_WIDTH: u16 = 4;

/// Height of a white key, in rows.
pub const WHITE_KEY_HEIGHT: u16 = 15;

/// Width of a black key, in columns.
pub const BLACK_KEY_WIDTH: u16 = 3;

/// Height of a black key, in rows.
pub const BLACK_KEY_HEIGHT: u16 = 7;

/// The space between two white keys.
pub const KEY_GAP: u16 = 1;

/// Number of keys drawn dimmed on either side of the playing keys.
pub const DIMMED_KEYS: usize = 12;

/// How a key is shown.
#[allow(non_camel_case_types)]
#[derive(Clone, Copy, Debug, PartialEq, Eq, Structural)]
pub enum KB_KeyState {
    Neutral,
    Pressed,
    /// Out of the player's reach.
    Dimmed,
}

/// One key of the picture: a rectangle with its upper left corner at
/// `(x, y)`.
#[allow(non_camel_case_types)]
#[derive(Clone, Copy, Debug, PartialEq, Eq, Structural)]
pub struct KB_Key {
    pub x: u16,
    pub y: u16,
    pub is_black_key: bool,
    pub is_dim: bool,
}

impl KB_Key {
    /// Width and height of the key.
    pub fn get_size(&self) -> (size: (u16, u16))
        ensures
            size == if self.is_black_key {
                (BLACK_KEY_WIDTH, BLACK_KEY_HEIGHT)
            } else {
                (WHITE_KEY_WIDTH, WHITE_KEY_HEIGHT)
            },
    {
        if self.is_black_key {
            (BLACK_KEY_WIDTH, BLACK_KEY_HEIGHT)
        } else {
            (WHITE_KEY_WIDTH, WHITE_KEY_HEIGHT)
        }
    }

    /// The shade of grey of the key, from 0 for black to 255 for white.
    pub fn get_colour(&self) -> (grey: u8)
        ensures
            grey == if self.is_dim {
                if self.is_black_key {
                    20u8
                } else {
                    60u8
                }
            } else {
                if self.is_black_key {
                    50u8
                } else {
                    200u8
                }
            },
    {
        if self.is_dim {
            if self.is_black_key {
                20
            } else {
                60
            }
        } else {
            if self.is_black_key {
                50
            } else {
                200
            }
        }
    }
}

/// Whether key `i` of a keyboard that starts at C is a black key.
pub open spec fn is_black(i: int) -> bool {
    let s = i % 12;
    s == 1 || s == 3 || s == 6 || s == 8 || s == 10
}

/// Number of white keys among the first `i` keys.
pub open spec fn whites_before(i: nat) -> nat
    decreases i,
{
    if i == 0 {
        0
    } else {
        whites_before((i - 1) as nat) + if is_black(i - 1) {
            0nat
        } else {
            1nat
        }
    }
}

/// The picture of key `i`. A white key stands a key's width and a gap right
/// of the white key before it. A black key lies over the gap left of the
/// white key that follows it. A pressed key is drawn one row lower.
pub open spec fn key_shape(states: Seq<KB_KeyState>, i: int) -> KB_Key {
    let left = (WHITE_KEY_WIDTH + KEY_GAP) * whites_before(i as nat);
    KB_Key {
        x: if is_black(i) {
            (left - BLACK_KEY_WIDTH / 2 - KEY_GAP) as u16
        } else {
            left as u16
        },
        y: if states[i] == KB_KeyState::Pressed {
            1
        } else {
            0
        },
        is_black_key: is_black(i),
        is_dim: states[i] == KB_KeyState::Dimmed,
    }
}

/// The pictures of the black keys, or of the white keys, among the first
/// `k` keys, in key order.
pub open spec fn shapes_upto(states: Seq<KB_KeyState>, k: nat, black: bool) -> Seq<KB_Key>
    decreases k,
{
    if k == 0 {
        Seq::empty()
    } else {
        let before = shapes_upto(states, (k - 1) as nat, black);
        if is_black(k - 1) == black {
            before.push(key_shape(states, k - 1))
        } else {
            before
        }
    }
}

/// The pictures of all keys in the order they are painted: the white keys,
/// then the black keys over them.
pub open spec fn key_shapes(states: Seq<KB_KeyState>) -> Seq<KB_Key> {
    shapes_upto(states, states.len(), false) + shapes_upto(states, states.len(), true)
}

/// There are no more white keys than keys, and a white key before every key
/// but the first.
pub proof fn lemma_whites_before(i: nat)
    ensures
        whites_before(i) <= i,
        i >= 1 ==> whites_before(i) >= 1,
    decreases i,
{
    if i >= 1 {
        lemma_whites_before((i - 1) as nat);
    }
}

/// A white key and the gap beside it take five columns.
proof fn lemma_step(w: int)
    ensures
        (WHITE_KEY_WIDTH + KEY_GAP) * w == 5 * w,
{
    assert((WHITE_KEY_WIDTH + KEY_GAP) * w == 5 * w) by (nonlinear_arith)
        requires
            WHITE_KEY_WIDTH + KEY_GAP == 5,
    ;
}

fn black_key(i: usize) -> (black: bool)
    ensures
        black == is_black(i as int),
{
    let s = i % 12;
    s == 1 || s == 3 || s == 6 || s == 8 || s == 10
}

/// Lays out the keys with the given states, the first one a C.
pub fn layout(states: &Vec<KB_KeyState>) -> (keys: Vec<KB_Key>)
    requires
        (WHITE_KEY_WIDTH + KEY_GAP) * states.len() <= u16::MAX,
    ensures
        keys@ == key_shapes(states@),
{
    let step: u16 = WHITE_KEY_WIDTH + KEY_GAP;
    proof {
        lemma_step(states.len() as int);
    }
    let mut keys: Vec<KB_Key> = Vec::new();
    let mut left: u16 = 0;
    let mut i: usize = 0;
    while i < states.len()
        invariant
            i <= states.len(),
            step == 5,
            5 * states.len() <= u16::MAX,
            left == 5 * whites_before(i as nat),
            keys@ == shapes_upto(states@, i as nat, false),
        decreases states.len() - i,
    {
        proof {
            lemma_whites_before(i as nat);
            lemma_step(whites_before(i as nat) as int);
        }
        if !black_key(i) {
            let y: u16 = if states[i] == KB_KeyState::Pressed {
                1
            } else {
                0
            };
            keys.push(
                KB_Key { x: left, y, is_black_key: false, is_dim: states[i] == KB_KeyState::Dimmed },
            );
            left += step;
        }
        i += 1;
    }
    let ghost white_keys = keys@;
    left = 0;
    i = 0;
    while i < states.len()
        invariant
            i <= states.len(),
            step == 5,
            5 * states.len() <= u16::MAX,
            left == 5 * whites_before(i as nat),
            keys@ == white_keys + shapes_upto(states@, i as nat, true),
        decreases states.len() - i,
    {
        proof {
            lemma_whites_before(i as nat);
            lemma_step(whites_before(i as nat) as int);
        }
        if black_key(i) {
            let y: u16 = if states[i] == KB_KeyState::Pressed {
                1
            } else {
                0
            };
            keys.push(
                KB_Key {
                    x: left - BLACK_KEY_WIDTH / 2 - KEY_GAP,
                    y,
                    is_black_key: true,
                    is_dim: states[i] == KB_KeyState::Dimmed,
                },
            );
            assert(keys@ =~= white_keys + shapes_upto(states@, (i + 1) as nat, true));
        } else {
            left += step;
        }
        i += 1;
    }
    keys
}

/// The states of the keys of the picture of a keyboard: the playing keys,
/// with an octave of dimmed keys on either side.
pub open spec fn shown_states(notes: Seq<bool>) -> Seq<KB_KeyState> {
    Seq::new(
        (notes.len() + 2 * DIMMED_KEYS) as nat,
        |i: int|
            if i < DIMMED_KEYS || i >= DIMMED_KEYS + notes.len() {
                KB_KeyState::Dimmed
            } else if notes[i - DIMMED_KEYS] {
                KB_KeyState::Pressed
            } else {
                KB_KeyState::Neutral
            },
    )
}

impl Keyboard {
    /// The states of the keys of the keyboard's picture.
    pub fn key_states(&self) -> (states: Vec<KB_KeyState>)
        ensures
            states@ == shown_states(self@.notes),
    {
        proof {
            self.lemma_keys();
        }
        let mut states: Vec<KB_KeyState> = Vec::new();
        let mut i: usize = 0;
        while i < DIMMED_KEYS + KEYS + DIMMED_KEYS
            invariant
                i <= DIMMED_KEYS + KEYS + DIMMED_KEYS,
                states.len() == i,
                self@.notes.len() == KEYS,
                forall|j: int| 0 <= j < i ==> states[j] == shown_states(self@.notes)[j],
            decreases DIMMED_KEYS + KEYS + DIMMED_KEYS - i,
        {
            let state = if i < DIMMED_KEYS || i >= DIMMED_KEYS + KEYS {
                KB_KeyState::Dimmed
            } else if self.is_held(i - DIMMED_KEYS) {
                KB_KeyState::Pressed
            } else {
                KB_KeyState::Neutral
            };
            states.push(state);
            i += 1;
        }
        assert(states@ =~= shown_states(self@.notes));
        states
    }
}

} // verus!
