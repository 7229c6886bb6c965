//! The rules for the things in the house that can be clicked: who may use them,
//! what they sound like, when the ghost may open a door, and the puzzles they feed.
use vstd::prelude::*;
use vstd::string::{StrSliceExecFns, StringExecFns};
use crate::puzzle::KeyPuzzleState;
use crate::text::{chars_of, contains, ends_with, has_infix, has_prefix, has_suffix, is_digit, same_text, starts_with};

verus! {

/// The item that must be held to use the interactable `name`, given the item its
/// configuration asks for: loose planks always need the crowbar.
pub open spec fn required_item(name: Seq<char>, configured: Option<Seq<char>>) -> Option<Seq<char>> {
    if has_prefix(name, "I_LoosePlank"@) {
        Some("Crowbar"@)
    } else {
        configured
    }
}

/// Whether the interactable `name` may be used: when it needs an item, only the
/// player may use it, and only while holding that item.
pub fn may_use(name: &str, configured: Option<&str>, by_player: bool, held: Option<&str>) -> (res: bool)
    ensures
        res == match required_item(name@, match configured {
            Some(c) => Some(c@),
            None => None,
        }) {
            None => true,
            Some(r) => by_player && match held {
                Some(h) => h@ == r,
                None => false,
            },
        },
        has_prefix(name@, "I_LoosePlank"@) ==> res == (by_player && match held {
            Some(h) => h@ == "Crowbar"@,
            None => false,
        }),
        !has_prefix(name@, "I_LoosePlank"@) && configured is None ==> res,
        !has_prefix(name@, "I_LoosePlank"@) && configured is Some ==> res == (by_player && held is Some
            && held->0@ == configured->0@),
        res && !by_player ==> !has_prefix(name@, "I_LoosePlank"@) && configured is None,
{
    let requirement: Option<&str> = if starts_with(name, "I_LoosePlank") {
        Some("Crowbar")
    } else {
        configured
    };
    match requirement {
        None => true,
        Some(r) => {
            if !by_player {
                return false;
            }
            match held {
                Some(h) => same_text(h, r),
                None => false,
            }
        },
    }
}

/// The sound an interactable makes when it is used.
#[derive(Clone, Copy, PartialEq, Eq, Structural, Debug, Hash)]
pub enum ClickSound {
    /// The sound its configuration names.
    Configured,
    PlankRemoval,
    SymbolsButton,
    DoorClose,
    DoorOpen,
    DrawerClose,
    DrawerOpen,
}

/// The sound of using the interactable `name`, which is `open` before the click.
pub open spec fn click_sound_spec(name: Seq<char>, has_configured_sound: bool, open: bool) -> ClickSound {
    if has_configured_sound {
        ClickSound::Configured
    } else if has_prefix(name, "I_LoosePlank"@) {
        ClickSound::PlankRemoval
    } else if has_prefix(name, "I_StorageButton"@) {
        ClickSound::SymbolsButton
    } else if has_prefix(name, "D"@) {
        if open { ClickSound::DoorClose } else { ClickSound::DoorOpen }
    } else if has_prefix(name, "I_"@) {
        if open { ClickSound::DrawerClose } else { ClickSound::DrawerOpen }
    } else {
        ClickSound::DrawerOpen
    }
}

proof fn lemma_sound_prefixes(name: Seq<char>)
    ensures
        !(has_prefix(name, "I_StorageButton"@) && has_prefix(name, "I_LoosePlank"@)),
        has_prefix(name, "D"@) ==> !has_prefix(name, "I_StorageButton"@) && !has_prefix(name, "I_LoosePlank"@)
            && !has_prefix(name, "I_"@),
{
    reveal_strlit("I_StorageButton");
    reveal_strlit("I_LoosePlank");
    reveal_strlit("D");
    reveal_strlit("I_");
    if has_prefix(name, "I_StorageButton"@) && has_prefix(name, "I_LoosePlank"@) {
        assert(name.take(15)[2] == 'S');
        assert(name.take(12)[2] == 'L');
        assert(name[2] == 'S' && name[2] == 'L');
    }
    if has_prefix(name, "D"@) {
        assert(name.take(1)[0] == 'D');
        assert(name[0] == 'D');
        if has_prefix(name, "I_"@) {
            assert(name.take(2)[0] == 'I');
        }
        if has_prefix(name, "I_StorageButton"@) {
            assert(name.take(15)[0] == 'I');
        }
        if has_prefix(name, "I_LoosePlank"@) {
            assert(name.take(12)[0] == 'I');
        }
    }
}

/// What a click sounds like: a configured sound always wins; otherwise a storage
/// lock button always clicks as a symbol button and a loose plank always sounds as
/// a plank coming off, whether or not the interactable was open, while a door
/// sounds as closing when it was open and as opening when it was shut.
pub proof fn lemma_click_sounds(name: Seq<char>, has_configured_sound: bool, open: bool)
    ensures
        has_configured_sound ==> click_sound_spec(name, has_configured_sound, open) == ClickSound::Configured,
        !has_configured_sound && has_prefix(name, "I_StorageButton"@) ==> click_sound_spec(name, false, open)
            == ClickSound::SymbolsButton,
        !has_configured_sound && has_prefix(name, "I_LoosePlank"@) ==> click_sound_spec(name, false, open)
            == ClickSound::PlankRemoval,
        !has_configured_sound && has_prefix(name, "D"@) ==> click_sound_spec(name, false, open) == if open {
            ClickSound::DoorClose
        } else {
            ClickSound::DoorOpen
        },
        has_prefix(name, "I_StorageButton"@) || has_prefix(name, "I_LoosePlank"@) ==> click_sound_spec(
            name,
            has_configured_sound,
            true,
        ) == click_sound_spec(name, has_configured_sound, false),
{
    lemma_sound_prefixes(name);
}

/// Chooses the sound of using the interactable `name`, which is `open` before the click.
pub fn click_sound(name: &str, has_configured_sound: bool, open: bool) -> (res: ClickSound)
    ensures
        res == click_sound_spec(name@, has_configured_sound, open),
        has_configured_sound ==> res == ClickSound::Configured,
        !has_configured_sound && has_prefix(name@, "I_StorageButton"@) ==> res == ClickSound::SymbolsButton,
        !has_configured_sound && has_prefix(name@, "I_LoosePlank"@) ==> res == ClickSound::PlankRemoval,
        !has_configured_sound && has_prefix(name@, "D"@) ==> res == if open {
            ClickSound::DoorClose
        } else {
            ClickSound::DoorOpen
        },
{
    proof {
        lemma_click_sounds(name@, has_configured_sound, open);
    }
    if has_configured_sound {
        ClickSound::Configured
    } else if starts_with(name, "I_LoosePlank") {
        ClickSound::PlankRemoval
    } else if starts_with(name, "I_StorageButton") {
        ClickSound::SymbolsButton
    } else if starts_with(name, "D") {
        if open {
            ClickSound::DoorClose
        } else {
            ClickSound::DoorOpen
        }
    } else if starts_with(name, "I_") {
        if open {
            ClickSound::DrawerClose
        } else {
            ClickSound::DrawerOpen
        }
    } else {
        ClickSound::DrawerOpen
    }
}

/// Interactables that stay shut for now: disabled ones, the storage door until
/// the symbol lock is solved, and the study closet until the key puzzle is solved.
pub open spec fn locked_spec(name: Seq<char>, disabled: bool, storage_unlocked: bool, puzzle: KeyPuzzleState) -> bool {
    disabled || (name == "D_DoorStorage"@ && !storage_unlocked) || (has_suffix(name, "S_StudyCloset"@)
        && puzzle != KeyPuzzleState::Finish)
}

fn locked(name: &str, disabled: bool, storage_unlocked: bool, puzzle: KeyPuzzleState) -> (res: bool)
    ensures
        res == locked_spec(name@, disabled, storage_unlocked, puzzle),
{
    disabled || (same_text(name, "D_DoorStorage") && !storage_unlocked) || (ends_with(name, "S_StudyCloset")
        && puzzle != KeyPuzzleState::Finish)
}

/// The names the locks single out are told apart: a study closet is neither the
/// storage door nor the study door, and those two are different doors.
proof fn lemma_lock_names(name: Seq<char>)
    ensures
        has_suffix(name, "S_StudyCloset"@) ==> name != "D_DoorStorage"@ && name != "D_DoorStudy"@,
        "D_DoorStorage"@ != "D_DoorStudy"@,
{
    reveal_strlit("S_StudyCloset");
    reveal_strlit("D_DoorStorage");
    reveal_strlit("D_DoorStudy");
    if has_suffix(name, "S_StudyCloset"@) && name == "D_DoorStorage"@ {
        assert(name.skip(name.len() - 13)[0] == 'D');
        assert("S_StudyCloset"@[0] == 'S');
    }
    assert("D_DoorStorage"@.len() != "D_DoorStudy"@.len());
}

/// The study closet stays shut until the key puzzle is solved, whoever tries it:
/// for every name ending in `S_StudyCloset`, the ghost may open it and the player
/// may click it exactly when it is enabled and the puzzle is `Finish`, whatever the
/// storage lock and wherever the player is. The storage door likewise opens for
/// neither until the storage lock is solved, and a disabled interactable for none.
pub proof fn lemma_locks(
    name: Seq<char>,
    disabled: bool,
    player_inside_house: bool,
    storage_unlocked: bool,
    puzzle: KeyPuzzleState,
)
    ensures
        has_suffix(name, "S_StudyCloset"@) ==> {
            &&& !locked_spec(name, disabled, storage_unlocked, puzzle) == (!disabled && puzzle
                == KeyPuzzleState::Finish)
            &&& (name != "D_DoorStudy"@ || player_inside_house)
        },
        has_suffix(name, "S_StudyCloset"@) && puzzle != KeyPuzzleState::Finish ==> locked_spec(
            name,
            disabled,
            storage_unlocked,
            puzzle,
        ),
        name == "D_DoorStorage"@ ==> locked_spec(name, disabled, storage_unlocked, puzzle) == (disabled
            || !storage_unlocked),
        disabled ==> locked_spec(name, disabled, storage_unlocked, puzzle),
{
    lemma_lock_names(name);
    reveal_strlit("S_StudyCloset");
    reveal_strlit("D_DoorStorage");
    if name == "D_DoorStorage"@ {
        assert(!has_suffix(name, "S_StudyCloset"@)) by {
            if has_suffix(name, "S_StudyCloset"@) {
                assert(name.skip(name.len() - 13)[0] == 'D');
            }
        }
    }
}

/// Whether the ghost, bumping into the closed door `name`, may open it: never a
/// locked one, and not the study door while the player is still outside the house.
pub fn ghost_may_open(
    name: &str,
    disabled: bool,
    player_inside_house: bool,
    storage_unlocked: bool,
    puzzle: KeyPuzzleState,
) -> (res: bool)
    ensures
        res == (!(name@ == "D_DoorStudy"@ && !player_inside_house) && !locked_spec(
            name@,
            disabled,
            storage_unlocked,
            puzzle,
        )),
        disabled ==> !res,
        has_suffix(name@, "S_StudyCloset"@) ==> res == (!disabled && puzzle == KeyPuzzleState::Finish),
        name@ == "D_DoorStorage"@ ==> res == (!disabled && storage_unlocked),
        name@ == "D_DoorStudy"@ ==> res == (player_inside_house && !disabled),
{
    proof {
        lemma_lock_names(name@);
    }
    let mut can_open = true;
    if same_text(name, "D_DoorStudy") && !player_inside_house {
        can_open = false;
    }
    if locked(name, disabled, storage_unlocked, puzzle) {
        can_open = false;
    }
    can_open
}

/// Whether the player, looking at the resting interactable `name`, may click it:
/// not a locked one, and not the study door while its lights are out.
pub fn player_may_click(name: &str, disabled: bool, storage_unlocked: bool, puzzle: KeyPuzzleState) -> (res: bool)
    ensures
        res == !(locked_spec(name@, disabled, storage_unlocked, puzzle) || (name@ == "D_DoorStudy"@ && puzzle
            == KeyPuzzleState::LightOut)),
        disabled ==> !res,
        has_suffix(name@, "S_StudyCloset"@) ==> res == (!disabled && puzzle == KeyPuzzleState::Finish),
        name@ == "D_DoorStorage"@ ==> res == (!disabled && storage_unlocked),
        name@ == "D_DoorStudy"@ ==> res == (puzzle != KeyPuzzleState::LightOut && !disabled),
{
    proof {
        lemma_lock_names(name@);
    }
    !(locked(name, disabled, storage_unlocked, puzzle) || (same_text(name, "D_DoorStudy") && puzzle
        == KeyPuzzleState::LightOut))
}

/// How an interactable moves when it opens or closes.
#[derive(Clone, Copy, PartialEq, Eq, Structural, Debug, Hash)]
pub enum Motion {
    /// The garden gate, the slowest.
    Gate,
    /// A door.
    Door,
    /// A drawer or anything else, the quickest.
    Drawer,
}

/// How the interactable `name` moves.
pub fn motion(name: &str) -> (res: Motion)
    ensures
        res == if has_prefix(name@, "DL_FenceDoor"@) {
            Motion::Gate
        } else if has_prefix(name@, "D"@) {
            Motion::Door
        } else {
            Motion::Drawer
        },
{
    if starts_with(name, "DL_FenceDoor") {
        Motion::Gate
    } else if starts_with(name, "D") {
        Motion::Door
    } else {
        Motion::Drawer
    }
}

/// Grass and trees do not block the way.
pub fn is_solid(mesh_name: &str) -> (res: bool)
    ensures
        res == !(has_prefix(mesh_name@, "B_SmallGrass"@) || has_prefix(mesh_name@, "B_TallGrass"@) || has_prefix(
            mesh_name@,
            "B_Tree"@,
        )),
{
    !(starts_with(mesh_name, "B_SmallGrass") || starts_with(mesh_name, "B_TallGrass") || starts_with(mesh_name, "B_Tree"))
}

/// Every level mesh with `Light` in its name holds a lamp.
pub fn is_lamp(mesh_name: &str) -> (res: bool)
    ensures
        res == has_infix(mesh_name@, "Light"@),
{
    contains(mesh_name, "Light")
}

/// The items that lie in the house from the start: all but the fuse, the study
/// keys and the fifth book, which appear later.
pub fn spawns_at_start(item_name: &str) -> (res: bool)
    ensures
        res == !(has_infix(item_name@, "Fuse"@) || has_infix(item_name@, "StudyKey"@) || item_name@ == "Book5"@),
{
    !(contains(item_name, "Fuse") || contains(item_name, "StudyKey") || same_text(item_name, "Book5"))
}

/// The spawn mesh a dropped item is drawn with: the doll has a mesh of its own.
pub fn dropped_mesh_index(item_name: &str) -> (res: usize)
    ensures
        res == if item_name@ == "Doll"@ { 1000usize } else { 0usize },
{
    if same_text(item_name, "Doll") {
        1000
    } else {
        0
    }
}

/// How far, in tenths, the moving closet of the library has slid: a tenth per
/// open bookshelf, and all the way once five are open.
pub fn library_progress_tenths(open_shelves: usize) -> (res: usize)
    ensures
        res == if open_shelves == 5 { 10 } else { open_shelves },
{
    if open_shelves == 5 {
        10
    } else {
        open_shelves
    }
}

/// The name every storage lock button begins with.
pub open spec fn button_prefix() -> Seq<char> {
    "I_StorageButtonIcon"@
}

/// The value of the decimal digit `c`.
pub open spec fn digit_value(c: char) -> int {
    c as int - '0' as int
}

/// The storage lock button `name` (the prefix, then the number of the button from 1
/// to 4, then the digit of the symbol it shows) as the index of the button from 0
/// and its symbol.
pub open spec fn storage_button_spec(name: Seq<char>) -> Option<(usize, u8)> {
    let n = button_prefix().len();
    if has_prefix(name, button_prefix()) && name.len() >= n + 2 && is_digit(name[n as int]) && is_digit(
        name[n + 1int],
    ) && name[n as int] != '0' {
        Some(((digit_value(name[n as int]) - 1) as usize, digit_value(name[n + 1int]) as u8))
    } else {
        None
    }
}

/// Reads a storage lock button's name; `None` when `name` is not such a button or
/// lacks its two digits (a `0` for the button's number counts as lacking).
pub fn storage_button(name: &str) -> (res: Option<(usize, u8)>)
    ensures
        res == storage_button_spec(name@),
{
    proof {
        reveal_strlit("I_StorageButtonIcon");
    }
    if !starts_with(name, "I_StorageButtonIcon") {
        return None;
    }
    let chars = chars_of(name);
    let n: usize = 19;
    if chars.len() < n + 2 {
        return None;
    }
    let a = chars[n];
    let b = chars[n + 1];
    if !('0' <= a && a <= '9') || !('0' <= b && b <= '9') || a == '0' {
        return None;
    }
    let index = (a as u32 - '0' as u32) as usize - 1;
    let symbol = (b as u32 - '0' as u32) as u8;
    Some((index, symbol))
}

/// Whether `name` is the storage lock button with number `i + 1`: the prefix followed by that digit.
pub open spec fn is_button_number(name: Seq<char>, i: int) -> bool {
    let n = button_prefix().len();
    has_prefix(name, button_prefix()) && name.len() > n && digit_value(name[n as int]) == i + 1
}

/// The first of `names` that is the button with number `i + 1`, or -1.
pub open spec fn first_button(names: Seq<Seq<char>>, i: int) -> int
    decreases names.len(),
{
    if names.len() == 0 {
        -1
    } else {
        let f = first_button(names.drop_last(), i);
        if f >= 0 {
            f
        } else if is_button_number(names.last(), i) {
            names.len() - 1
        } else {
            -1
        }
    }
}

proof fn lemma_first_button(names: Seq<Seq<char>>, i: int)
    ensures
        -1 <= first_button(names, i) < names.len(),
        first_button(names, i) >= 0 ==> is_button_number(names[first_button(names, i)], i),
        forall|k: int|
            0 <= k < names.len() && (first_button(names, i) < 0 || k < first_button(names, i)) ==> !is_button_number(
                #[trigger] names[k],
                i,
            ),
    decreases names.len(),
{
    if names.len() > 0 {
        lemma_first_button(names.drop_last(), i);
        assert forall|k: int| 0 <= k < names.len() - 1 implies names.drop_last()[k] == names[k] by {}
    }
}

/// The symbol the button named `name` shows: the digit after its number.
pub open spec fn shown_symbol(name: Seq<char>) -> Option<u8> {
    let n = button_prefix().len();
    if name.len() > n + 1 && is_digit(name[n + 1int]) {
        Some(digit_value(name[n + 1int]) as u8)
    } else {
        None
    }
}

/// The symbol shown by button `i + 1` among the interactables `names`: read from the
/// first of them that is that button.
pub open spec fn button_symbol(names: Seq<Seq<char>>, i: int) -> Option<u8> {
    let f = first_button(names, i);
    if f >= 0 {
        shown_symbol(names[f])
    } else {
        None
    }
}

/// What the four buttons of the storage lock show, read from the names of the
/// interactables; `None` when a button is missing or its symbol is not a digit.
pub fn lock_setting_from_names(names: &Vec<String>) -> (res: Option<[u8; 4]>)
    ensures
        ({
            let ns = names@.map_values(|s: String| s@);
            match res {
                Some(r) => forall|i: int| 0 <= i < 4 ==> button_symbol(ns, i) == Some(#[trigger] r@[i]),
                None => exists|i: int| 0 <= i < 4 && #[trigger] button_symbol(ns, i) is None,
            }
        }),
{
    let ghost ns = names@.map_values(|s: String| s@);
    let mut res: [u8; 4] = [0, 0, 0, 0];
    proof {
        reveal_strlit("I_StorageButtonIcon");
    }
    for i in 0..4usize
        invariant
            ns == names@.map_values(|s: String| s@),
            forall|j: int| 0 <= j < i ==> button_symbol(ns, j) == Some(#[trigger] res@[j]),
    {
        proof {
            lemma_first_button(ns, i as int);
        }
        let mut k: usize = 0;
        let mut hit = false;
        while !hit && k < names.len()
            invariant
                0 <= k <= names.len(),
                i < 4,
                ns == names@.map_values(|s: String| s@),
                forall|j: int| 0 <= j < k ==> !is_button_number(#[trigger] ns[j], i as int),
                hit ==> k < names.len() && is_button_number(ns[k as int], i as int),
            decreases names.len() - k + if hit { 0int } else { 1int },
        {
            let name = names[k].as_str();
            proof {
                reveal_strlit("I_StorageButtonIcon");
                assert(ns[k as int] == name@);
            }
            let mut is_it = false;
            if starts_with(name, "I_StorageButtonIcon") {
                let chars = chars_of(name);
                if chars.len() > 19 {
                    let c = chars[19];
                    is_it = '0' <= c && c <= '9' && (c as u32 - '0' as u32) as usize == i + 1;
                    assert(is_it == is_button_number(ns[k as int], i as int));
                } else {
                    assert(!is_button_number(ns[k as int], i as int));
                }
            } else {
                assert(!is_button_number(ns[k as int], i as int));
            }
            if is_it {
                hit = true;
            } else {
                k = k + 1;
            }
        }
        proof {
            let f = first_button(ns, i as int);
            if hit {
                if f < 0 || f > k {
                    assert(!is_button_number(ns[k as int], i as int));
                } else if f < k {
                    assert(!is_button_number(ns[f], i as int));
                }
                assert(f == k);
            } else if f >= 0 {
                assert(is_button_number(ns[f], i as int));
                assert(!is_button_number(ns[f], i as int));
            }
        }
        if !hit {
            assert(button_symbol(ns, i as int) is None);
            return None;
        }
        let chars = chars_of(names[k].as_str());
        proof {
            reveal_strlit("I_StorageButtonIcon");
            assert(ns[k as int] == chars@);
        }
        if chars.len() < 21 {
            assert(button_symbol(ns, i as int) is None);
            return None;
        }
        let c = chars[20];
        if !('0' <= c && c <= '9') {
            assert(button_symbol(ns, i as int) is None);
            return None;
        }
        res[i] = (c as u32 - '0' as u32) as u8;
    }
    Some(res)
}

/// How many of the interactables `names` begin with `prefix`, and how many of those
/// are `open`.
pub open spec fn prefix_counts(names: Seq<Seq<char>>, open: Seq<bool>, prefix: Seq<char>) -> (nat, nat)
    decreases names.len(),
{
    if names.len() == 0 || open.len() != names.len() {
        (0, 0)
    } else {
        let (all, opened) = prefix_counts(names.drop_last(), open.drop_last(), prefix);
        if has_prefix(names.last(), prefix) {
            (all + 1, if open.last() { opened + 1 } else { opened })
        } else {
            (all, opened)
        }
    }
}

/// Counts the interactables whose name begins with `prefix`, and those of them that are open.
pub fn count_by_prefix(names: &Vec<String>, open: &Vec<bool>, prefix: &str) -> (res: (usize, usize))
    requires
        names.len() == open.len(),
    ensures
        res.0 == prefix_counts(names@.map_values(|s: String| s@), open@, prefix@).0,
        res.1 == prefix_counts(names@.map_values(|s: String| s@), open@, prefix@).1,
{
    let ghost ns = names@.map_values(|s: String| s@);
    let mut all: usize = 0;
    let mut opened: usize = 0;
    for i in 0..names.len()
        invariant
            names.len() == open.len(),
            ns == names@.map_values(|s: String| s@),
            (all as nat, opened as nat) == prefix_counts(ns.take(i as int), open@.take(i as int), prefix@),
            opened <= all <= i,
    {
        proof {
            assert(ns.take(i + 1).drop_last() =~= ns.take(i as int));
            assert(open@.take(i + 1).drop_last() =~= open@.take(i as int));
        }
        if starts_with(names[i].as_str(), prefix) {
            all = all + 1;
            if open[i] {
                opened = opened + 1;
            }
        }
    }
    assert(ns.take(names.len() as int) =~= ns);
    assert(open@.take(names.len() as int) =~= open@);
    (all, opened)
}

/// Whether the interactable `name` is put in the house when a game starts: not the
/// hint key, which only marks where the hint is drawn; of each storage lock button
/// only the copy showing the symbol `lock_buttons` starts with; and none that its
/// configuration hides.
pub fn keeps_interactable(name: &str, lock_buttons: [u8; 4], hidden: bool) -> (res: bool)
    requires
        has_prefix(name@, button_prefix()) ==> (storage_button_spec(name@) matches Some((i, _)) && i < 4),
    ensures
        res == !(name@ == "I_HintKey"@ || hidden || match storage_button_spec(name@) {
            Some((i, v)) => has_prefix(name@, button_prefix()) && lock_buttons@[i as int] != v,
            None => false,
        }),
{
    if same_text(name, "I_HintKey") {
        return false;
    }
    match storage_button(name) {
        Some((index, value)) => {
            if lock_buttons[index] != value {
                return false;
            }
        },
        None => {},
    }
    !hidden
}

/// A sound that an interactable's configuration can name by its file.
#[derive(Clone, Copy, PartialEq, Eq, Structural, Debug, Hash)]
pub enum ConfiguredSound {
    PlaceObject,
    DoorLocked,
    DoorUnlocked,
    FusePlaced,
    CurtainsOpen,
    CurtainsClose,
}

/// The sound whose file is `name`.
pub open spec fn configured_sound_spec(name: Seq<char>) -> Option<ConfiguredSound> {
    if name == "placeObject.mp3"@ {
        Some(ConfiguredSound::PlaceObject)
    } else if name == "doorLocked.mp3"@ {
        Some(ConfiguredSound::DoorLocked)
    } else if name == "doorUnlocked.mp3"@ {
        Some(ConfiguredSound::DoorUnlocked)
    } else if name == "fusePlaced.mp3"@ {
        Some(ConfiguredSound::FusePlaced)
    } else if name == "curtainsOpen.mp3"@ {
        Some(ConfiguredSound::CurtainsOpen)
    } else if name == "curtainsClose.mp3"@ {
        Some(ConfiguredSound::CurtainsClose)
    } else {
        None
    }
}

/// Finds the sound a configuration names by its file; `None` for a file that is not one of them.
pub fn configured_sound(name: &str) -> (res: Option<ConfiguredSound>)
    ensures
        res == configured_sound_spec(name@),
{
    if same_text(name, "placeObject.mp3") {
        Some(ConfiguredSound::PlaceObject)
    } else if same_text(name, "doorLocked.mp3") {
        Some(ConfiguredSound::DoorLocked)
    } else if same_text(name, "doorUnlocked.mp3") {
        Some(ConfiguredSound::DoorUnlocked)
    } else if same_text(name, "fusePlaced.mp3") {
        Some(ConfiguredSound::FusePlaced)
    } else if same_text(name, "curtainsOpen.mp3") {
        Some(ConfiguredSound::CurtainsOpen)
    } else if same_text(name, "curtainsClose.mp3") {
        Some(ConfiguredSound::CurtainsClose)
    } else {
        None
    }
}

/// The digit that writes the symbol `v`, one of four.
pub open spec fn symbol_digit(v: int) -> char {
    if v == 0 {
        '0'
    } else if v == 1 {
        '1'
    } else if v == 2 {
        '2'
    } else {
        '3'
    }
}

/// The name of the interactable that a storage lock button `name` turns into when
/// it is pressed: its last character is replaced by the next symbol, round again
/// after the fourth; `None` when `name` is not a storage lock button.
pub fn pressed_button_name(name: &str) -> (res: Option<String>)
    requires
        has_prefix(name@, button_prefix()) ==> storage_button_spec(name@) is Some,
    ensures
        match res {
            Some(n) => storage_button_spec(name@) matches Some((_, v)) && n@ == name@.drop_last().push(
                symbol_digit((v + 1) % 4),
            ),
            None => !has_prefix(name@, button_prefix()),
        },
{
    match storage_button(name) {
        None => None,
        Some((_, value)) => {
            let len = name.unicode_len();
            let stem = name.substring_char(0, len - 1).to_owned();
            let next = (value + 1) % 4;
            let digit = if next == 0 {
                "0"
            } else if next == 1 {
                "1"
            } else if next == 2 {
                "2"
            } else {
                "3"
            };
            proof {
                reveal_strlit("0");
                reveal_strlit("1");
                reveal_strlit("2");
                reveal_strlit("3");
            }
            let res = stem.concat(digit);
            assert(res@ =~= name@.drop_last().push(symbol_digit((value + 1) % 4)));
            Some(res)
        },
    }
}

/// The name a storage lock button `name` turns into when it is pressed.
pub open spec fn pressed_name(name: Seq<char>) -> Seq<char> {
    match storage_button_spec(name) {
        Some((_, v)) => name.drop_last().push(symbol_digit((v + 1) % 4)),
        None => name,
    }
}

proof fn lemma_press_once(name: Seq<char>, i: usize, v: u8)
    requires
        name.len() == button_prefix().len() + 2,
        storage_button_spec(name) == Some((i, v)),
        v < 4,
    ensures
        pressed_name(name).len() == name.len(),
        storage_button_spec(pressed_name(name)) == Some((i, ((v + 1) % 4) as u8)),
{
    reveal_strlit("I_StorageButtonIcon");
    let p = pressed_name(name);
    let n = button_prefix().len();
    assert(p.take(n as int) =~= name.take(n as int));
    assert(p[n as int] == name[n as int]);
}

/// Pressing a storage lock button four times turns it back into itself, when its
/// name ends with its two digits and shows one of the four symbols.
pub proof fn lemma_four_presses_restore_button(name: Seq<char>)
    requires
        name.len() == button_prefix().len() + 2,
        storage_button_spec(name) matches Some((_, v)) && v < 4,
    ensures
        pressed_name(pressed_name(pressed_name(pressed_name(name)))) == name,
{
    reveal_strlit("I_StorageButtonIcon");
    let (i, v) = storage_button_spec(name).unwrap();
    let p1 = pressed_name(name);
    lemma_press_once(name, i, v);
    let v1 = ((v + 1) % 4) as u8;
    let p2 = pressed_name(p1);
    lemma_press_once(p1, i, v1);
    let v2 = ((v1 + 1) % 4) as u8;
    let p3 = pressed_name(p2);
    lemma_press_once(p2, i, v2);
    let v3 = ((v2 + 1) % 4) as u8;
    let p4 = pressed_name(p3);
    lemma_press_once(p3, i, v3);
    assert((v3 + 1) % 4 == v);
    let n = button_prefix().len();
    assert(p4.len() == name.len());
    assert(digit_value(name[n + 1int]) == v);
    assert(name[n + 1int] == symbol_digit(v as int));
    assert(p4 =~= name);
}

} // verus!
