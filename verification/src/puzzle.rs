//! The house's puzzles: the study key puzzle, the colour and shape of the study
//! keys, and the four-symbol lock of the storage room.
use vstd::prelude::*;
use crate::rng::random_index;

verus! {

/// How far the player has come through the study key puzzle.
#[derive(Clone, Copy, PartialEq, Eq, Structural, Hash, Debug)]
pub enum KeyPuzzleState {
    Begin,
    Entered,
    LightOut,
    Ready,
    Finish,
}

/// Something that happens in the house and may move the key puzzle on.
#[derive(Clone, Copy, PartialEq, Eq, Structural, Hash, Debug)]
pub enum KeyPuzzleEvent {
    /// The player walks into the study; `lights_went_out_before` tells whether
    /// the lights already went out there in an earlier game of this session.
    EnterStudy { lights_went_out_before: bool },
    /// The study door is clicked.
    ClickStudyDoor,
    /// The flashlight is switched on or off.
    ToggleFlashdark,
    /// The closet lock of the study is opened with the right key.
    OpenClosetLock,
}

/// What the game has to do when the key puzzle moves on.
#[derive(Clone, Copy, PartialEq, Eq, Structural, Hash, Debug)]
pub enum KeyPuzzleAction {
    /// Nothing: the event does not concern the puzzle in this state.
    Nothing,
    /// The lights of the study go out.
    LightsOut,
    /// The lights come back and the study keys and the hint key appear.
    SpawnKeys,
    /// The puzzle is solved: the keys are cleared and the closet opens.
    ClearKeys,
}

/// The position of a state along the puzzle: each step only ever moves forward.
pub open spec fn stage(s: KeyPuzzleState) -> nat {
    match s {
        KeyPuzzleState::Begin => 0,
        KeyPuzzleState::Entered => 1,
        KeyPuzzleState::LightOut => 2,
        KeyPuzzleState::Ready => 3,
        KeyPuzzleState::Finish => 4,
    }
}

/// The state and action that `event` leads to from `state`.
pub open spec fn key_puzzle_step_spec(state: KeyPuzzleState, event: KeyPuzzleEvent) -> (KeyPuzzleState, KeyPuzzleAction) {
    match event {
        KeyPuzzleEvent::EnterStudy { lights_went_out_before } => {
            if state == KeyPuzzleState::Begin {
                if lights_went_out_before {
                    (KeyPuzzleState::LightOut, KeyPuzzleAction::LightsOut)
                } else {
                    (KeyPuzzleState::Entered, KeyPuzzleAction::Nothing)
                }
            } else {
                (state, KeyPuzzleAction::Nothing)
            }
        },
        KeyPuzzleEvent::ClickStudyDoor => {
            if state == KeyPuzzleState::Entered {
                (KeyPuzzleState::LightOut, KeyPuzzleAction::LightsOut)
            } else {
                (state, KeyPuzzleAction::Nothing)
            }
        },
        KeyPuzzleEvent::ToggleFlashdark => {
            if state == KeyPuzzleState::LightOut {
                (KeyPuzzleState::Ready, KeyPuzzleAction::SpawnKeys)
            } else {
                (state, KeyPuzzleAction::Nothing)
            }
        },
        KeyPuzzleEvent::OpenClosetLock => {
            if state == KeyPuzzleState::LightOut {
                (state, KeyPuzzleAction::Nothing)
            } else {
                (KeyPuzzleState::Finish, KeyPuzzleAction::ClearKeys)
            }
        },
    }
}

impl KeyPuzzleState {
    /// Moves the puzzle on by `event`, and tells what the game has to do.
    /// While the lights are out, clicks in the house do nothing, so the closet
    /// lock cannot be opened then.
    pub fn step(self, event: KeyPuzzleEvent) -> (res: (KeyPuzzleState, KeyPuzzleAction))
        ensures
            res == key_puzzle_step_spec(self, event),
            stage(res.0) >= stage(self),
            event == KeyPuzzleEvent::ToggleFlashdark && self != KeyPuzzleState::LightOut ==> res == (
                self,
                KeyPuzzleAction::Nothing,
            ),
            (res.1 == KeyPuzzleAction::LightsOut) == ((self == KeyPuzzleState::Begin && event
                == KeyPuzzleEvent::EnterStudy { lights_went_out_before: true }) || (self == KeyPuzzleState::Entered
                && event == KeyPuzzleEvent::ClickStudyDoor)),
            (res.1 == KeyPuzzleAction::SpawnKeys) == (self == KeyPuzzleState::LightOut && event
                == KeyPuzzleEvent::ToggleFlashdark),
            (res.1 == KeyPuzzleAction::ClearKeys) == (self != KeyPuzzleState::LightOut && event
                == KeyPuzzleEvent::OpenClosetLock),
    {
        proof {
            lemma_puzzle_events(self, event);
        }
        match event {
            KeyPuzzleEvent::EnterStudy { lights_went_out_before } => {
                if self == KeyPuzzleState::Begin {
                    if lights_went_out_before {
                        (KeyPuzzleState::LightOut, KeyPuzzleAction::LightsOut)
                    } else {
                        (KeyPuzzleState::Entered, KeyPuzzleAction::Nothing)
                    }
                } else {
                    (self, KeyPuzzleAction::Nothing)
                }
            },
            KeyPuzzleEvent::ClickStudyDoor => {
                if self == KeyPuzzleState::Entered {
                    (KeyPuzzleState::LightOut, KeyPuzzleAction::LightsOut)
                } else {
                    (self, KeyPuzzleAction::Nothing)
                }
            },
            KeyPuzzleEvent::ToggleFlashdark => {
                if self == KeyPuzzleState::LightOut {
                    (KeyPuzzleState::Ready, KeyPuzzleAction::SpawnKeys)
                } else {
                    (self, KeyPuzzleAction::Nothing)
                }
            },
            KeyPuzzleEvent::OpenClosetLock => {
                if self == KeyPuzzleState::LightOut {
                    (self, KeyPuzzleAction::Nothing)
                } else {
                    (KeyPuzzleState::Finish, KeyPuzzleAction::ClearKeys)
                }
            },
        }
    }

    /// While the lights of the study are out, clicking things in the house does nothing
    /// (the candles aside).
    pub fn blocks_interaction(self) -> (res: bool)
        ensures
            res == (self == KeyPuzzleState::LightOut),
    {
        self == KeyPuzzleState::LightOut
    }

    /// The study closet can be opened only once the puzzle is solved.
    pub fn study_closet_unlocked(self) -> (res: bool)
        ensures
            res == (self == KeyPuzzleState::Finish),
    {
        self == KeyPuzzleState::Finish
    }
}

/// The puzzle never goes back, and a solved puzzle stays solved: whatever happens,
/// a step leaves the puzzle at least as far along, and from `Finish` in `Finish`.
/// The keys are only ever spawned from `LightOut`, and the lights only ever go
/// out before the keys are spawned.
pub proof fn lemma_puzzle_moves_forward(state: KeyPuzzleState, event: KeyPuzzleEvent)
    ensures
        stage(key_puzzle_step_spec(state, event).0) >= stage(state),
        state == KeyPuzzleState::Finish ==> key_puzzle_step_spec(state, event).0 == KeyPuzzleState::Finish,
        key_puzzle_step_spec(state, event).1 == KeyPuzzleAction::SpawnKeys ==> state == KeyPuzzleState::LightOut,
        key_puzzle_step_spec(state, event).1 == KeyPuzzleAction::LightsOut ==> stage(state) <= 1,
{
}

/// What each event does to the puzzle: switching the flashlight only matters while
/// the study lights are out, where it brings them back and spawns the keys, and in
/// every other state changes nothing; the lights go out only when the player walks
/// into the study after they already went out once, or clicks the study door after
/// entering; the keys are cleared exactly when the closet lock is opened while the
/// lights are on; and after the lights go out the puzzle is in `LightOut`.
pub proof fn lemma_puzzle_events(state: KeyPuzzleState, event: KeyPuzzleEvent)
    ensures
        event == KeyPuzzleEvent::ToggleFlashdark && state != KeyPuzzleState::LightOut ==> key_puzzle_step_spec(
            state,
            event,
        ) == (state, KeyPuzzleAction::Nothing),
        (key_puzzle_step_spec(state, event).1 == KeyPuzzleAction::LightsOut) == ((state == KeyPuzzleState::Begin
            && event == KeyPuzzleEvent::EnterStudy { lights_went_out_before: true }) || (state
            == KeyPuzzleState::Entered && event == KeyPuzzleEvent::ClickStudyDoor)),
        key_puzzle_step_spec(state, event).1 == KeyPuzzleAction::LightsOut ==> key_puzzle_step_spec(state, event).0
            == KeyPuzzleState::LightOut,
        (key_puzzle_step_spec(state, event).1 == KeyPuzzleAction::SpawnKeys) == (state == KeyPuzzleState::LightOut
            && event == KeyPuzzleEvent::ToggleFlashdark),
        (key_puzzle_step_spec(state, event).1 == KeyPuzzleAction::ClearKeys) == (state != KeyPuzzleState::LightOut
            && event == KeyPuzzleEvent::OpenClosetLock),
{
}

/// The marks on a study key: a colour and a shape on its top half and on its
/// bottom half, each one of four.
#[derive(Clone, Copy, PartialEq, Eq, Structural, Hash, Debug)]
pub struct KeyConfiguration {
    pub top_color: usize,
    pub bottom_color: usize,
    pub top_shape: usize,
    pub bottom_shape: usize,
}

impl KeyConfiguration {
    /// Every mark is one of the four of its kind.
    pub open spec fn valid(&self) -> bool {
        &&& self.top_color < 4
        &&& self.bottom_color < 4
        &&& self.top_shape < 4
        &&& self.bottom_shape < 4
    }

    /// A key with marks drawn at random.
    pub fn random() -> (res: Self)
        ensures
            res.valid(),
    {
        let top_color = random_index(4);
        let bottom_color = random_index(4);
        let top_shape = random_index(4);
        let bottom_shape = random_index(4);
        KeyConfiguration { top_color, bottom_color, top_shape, bottom_shape }
    }
}

impl KeyConfiguration {
    /// The tile of the key texture that corner `corner` of a key mesh shows, as
    /// (column, row) in the four by four grid: the first and third triangles show
    /// the top half's colour and shape, the second and fourth the bottom half's.
    pub fn corner_tile(&self, corner: usize) -> (res: (usize, usize))
        requires
            corner < 12,
        ensures
            res == if (corner / 3) % 2 == 0 {
                (self.top_color, self.top_shape)
            } else {
                (self.bottom_color, self.bottom_shape)
            },
    {
        if (corner / 3) % 2 == 0 {
            (self.top_color, self.top_shape)
        } else {
            (self.bottom_color, self.bottom_shape)
        }
    }
}

/// Every symbol of a storage lock setting is one of the four symbols.
pub open spec fn lock_valid(symbols: Seq<u8>) -> bool {
    symbols.len() == 4 && forall|i: int| 0 <= i < 4 ==> #[trigger] symbols[i] < 4
}

/// The number of a lock setting when its symbols are read as the digits, in base
/// four, of a number below 256 (the first symbol the most significant).
pub open spec fn lock_code(symbols: Seq<u8>) -> int {
    symbols[0] * 64 + symbols[1] * 16 + symbols[2] * 4 + symbols[3]
}

/// The lock setting whose number is `code`.
pub open spec fn lock_setting(code: int) -> Seq<u8> {
    seq![(code / 64) as u8, ((code / 16) % 4) as u8, ((code / 4) % 4) as u8, (code % 4) as u8]
}

proof fn lemma_lock_code_round_trip(symbols: Seq<u8>, code: int)
    requires
        0 <= code < 256,
    ensures
        lock_valid(lock_setting(code)),
        lock_code(lock_setting(code)) == code,
        lock_valid(symbols) ==> 0 <= lock_code(symbols) < 256,
        lock_valid(symbols) ==> lock_setting(lock_code(symbols)) == symbols,
{
    let st = lock_setting(code);
    assert(st[0] < 4 && st[1] < 4 && st[2] < 4 && st[3] < 4 && (code / 64) * 64 + ((code / 16) % 4) * 16 + ((code / 4) % 4) * 4 + code % 4 == code) by (nonlinear_arith)
        requires
            0 <= code < 256,
            st[0] == (code / 64) as u8,
            st[1] == ((code / 16) % 4) as u8,
            st[2] == ((code / 4) % 4) as u8,
            st[3] == (code % 4) as u8,
    ;
    if lock_valid(symbols) {
        let a = symbols[0] as int;
        let b = symbols[1] as int;
        let c = symbols[2] as int;
        let d = symbols[3] as int;
        assert(0 <= a < 4 && 0 <= b < 4 && 0 <= c < 4 && 0 <= d < 4);
        let x = a * 64 + b * 16 + c * 4 + d;
        assert(0 <= x < 256 && x / 64 == a && (x / 16) % 4 == b && (x / 4) % 4 == c && x % 4 == d) by (nonlinear_arith)
            requires
                0 <= a < 4,
                0 <= b < 4,
                0 <= c < 4,
                0 <= d < 4,
                x == a * 64 + b * 16 + c * 4 + d,
        ;
        assert(lock_setting(lock_code(symbols)) =~= symbols);
    }
}

/// A storage lock combination drawn at random: four symbols, each one of four.
pub fn random_lock_combination() -> (res: [u8; 4])
    ensures
        lock_valid(res@),
{
    let a = random_index(4) as u8;
    let b = random_index(4) as u8;
    let c = random_index(4) as u8;
    let d = random_index(4) as u8;
    [a, b, c, d]
}

/// The `draw`-th of the 255 lock settings that differ from `combination`,
/// counted in the order of their numbers.
pub fn lock_setting_other_than(combination: [u8; 4], draw: usize) -> (res: [u8; 4])
    requires
        lock_valid(combination@),
        draw < 255,
    ensures
        lock_valid(res@),
        res@ != combination@,
        res@ == lock_setting(
            if draw < lock_code(combination@) { draw as int } else { draw + 1 },
        ),
{
    let code: usize = combination[0] as usize * 64 + combination[1] as usize * 16 + combination[2] as usize * 4
        + combination[3] as usize;
    let pick: usize = if draw < code { draw } else { draw + 1 };
    proof {
        lemma_lock_code_round_trip(combination@, pick as int);
        lemma_lock_code_round_trip(lock_setting(pick as int), pick as int);
    }
    let res = [(pick / 64) as u8, ((pick / 16) % 4) as u8, ((pick / 4) % 4) as u8, (pick % 4) as u8];
    assert(res@ =~= lock_setting(pick as int));
    res
}

/// The setting the storage lock buttons show when a game starts: drawn at random
/// among the settings that do not already open the lock, all equally likely.
pub fn initial_lock_buttons(combination: [u8; 4]) -> (res: [u8; 4])
    requires
        lock_valid(combination@),
    ensures
        lock_valid(res@),
        res@ != combination@,
{
    let draw = random_index(255);
    lock_setting_other_than(combination, draw)
}

/// The symbol a lock button shows after it is pressed: the next of the four, round again
/// after the last.
pub fn next_symbol(symbol: u8) -> (res: u8)
    requires
        symbol < 255,
    ensures
        res == (symbol + 1) % 4,
{
    (symbol + 1) % 4
}

/// The storage lock opens when its buttons show the combination.
pub fn lock_opens(buttons: [u8; 4], combination: [u8; 4]) -> (res: bool)
    ensures
        res == (buttons@ == combination@),
{
    let res = buttons[0] == combination[0] && buttons[1] == combination[1] && buttons[2] == combination[2]
        && buttons[3] == combination[3];
    if res {
        assert(buttons@ =~= combination@);
    }
    res
}

/// Pressing a lock button four times brings back the symbol it showed.
pub proof fn lemma_four_presses_restore(symbol: u8)
    requires
        symbol < 4,
    ensures
        ({
            let s1 = ((symbol + 1) % 4) as u8;
            let s2 = ((s1 + 1) % 4) as u8;
            let s3 = ((s2 + 1) % 4) as u8;
            ((s3 + 1) % 4) as u8 == symbol
        }),
{
}

} // verus!
