use vstd::prelude::*;
use crate::parcel::Parcel;

verus! {

/// A trigger that takes the player to a level of the scene; `P` is the
/// spawn point's type.
#[derive(Debug)]
pub struct LevelChange<P> {
    pub spawn_point: P,
    pub level: usize,
    pub parcels: Vec<Parcel>,
}

/// Where to return to when leaving a level: the location, of type `T`,
/// and the level the player was in.
#[derive(Debug)]
pub struct LevelChangeStackData<T> {
    pub location: T,
    pub level_id: usize,
}

/// What the player's input is doing: moving freely, or waiting for the
/// screen to fade out before entering or leaving a level.
#[derive(Debug)]
pub enum PlayerInputState<P> {
    Normal,
    LoadingLevel(LevelChange<P>),
    ExitingLevel,
}

/// The player: the levels entered (innermost last), the input state,
/// the level (0 is the overworld) and the parcel the player is on.
#[derive(Debug)]
pub struct Player<T, P> {
    pub level_change_stack: Vec<LevelChangeStackData<T>>,
    pub input_state: PlayerInputState<P>,
    pub current_level: usize,
    pub current_parcel: Parcel,
}

/// The level stack after entering `level` from `current_level` at
/// `location`: entering the overworld forgets every level entered.
pub open spec fn stack_after_change<T>(stack: Seq<LevelChangeStackData<T>>, current_level: usize, location: T, level: usize)
    -> Seq<LevelChangeStackData<T>>
{
    if level == 0 {
        Seq::empty()
    } else {
        stack.push(LevelChangeStackData { location, level_id: current_level })
    }
}

/// Moves the player to a level (the number keys of the previewer).
pub fn switch<T, P>(level: usize, player: &mut Player<T, P>)
    ensures
        final(player).current_level == level,
        final(player).level_change_stack@ == old(player).level_change_stack@,
        final(player).current_parcel == old(player).current_parcel,
        final(player).input_state == old(player).input_state,
{
    player.current_level = level;
}

/// The level that a number key of the previewer switches to: keys 1 to
/// 9 give levels 0 to 8, key 0 gives level 9.
pub fn level_for_digit_key(digit: u8) -> (level: Option<usize>)
    ensures
        digit == 0 ==> level == Some(9usize),
        1 <= digit <= 9 ==> level == Some((digit - 1) as usize),
        digit > 9 ==> level is None,
        level == digit_key_level(digit),
{
    if digit == 0 {
        Some(9)
    } else if digit <= 9 {
        Some((digit - 1) as usize)
    } else {
        None
    }
}

/// The level of a number key, as `level_for_digit_key` gives it.
pub open spec fn digit_key_level(digit: u8) -> Option<usize> {
    if digit == 0 {
        Some(9usize)
    } else if digit <= 9 {
        Some((digit - 1) as usize)
    } else {
        None
    }
}

/// The level after the number keys `digits` were pressed, in order,
/// starting from `current`: the last key that names a level wins.
pub open spec fn level_after_digit_keys(current: usize, digits: Seq<u8>) -> usize
    decreases digits.len(),
{
    if digits.len() == 0 {
        current
    } else {
        match digit_key_level(digits.last()) {
            Some(level) => level,
            None => level_after_digit_keys(current, digits.drop_last()),
        }
    }
}

/// The level after the keys pressed in one frame, in the order given:
/// each number key switches to its level, so the last one wins; values
/// that are no number key are ignored, and with none the level stays
/// `current`.
pub fn level_after_keys(current: usize, digits: &Vec<u8>) -> (level: usize)
    ensures
        level == level_after_digit_keys(current, digits@),
{
    let mut level = current;
    let mut i: usize = 0;
    while i < digits.len()
        invariant
            i <= digits.len(),
            level == level_after_digit_keys(current, digits@.take(i as int)),
        decreases digits.len() - i,
    {
        assert(digits@.take(i as int + 1).drop_last() =~= digits@.take(i as int));
        match level_for_digit_key(digits[i]) {
            Some(l) => {
                level = l;
            },
            None => {},
        }
        i = i + 1;
    }
    assert(digits@.take(digits.len() as int) =~= digits@);
    level
}

/// Applies the number keys pressed in one frame, in order, to the
/// player: the last key that names a level wins, and nothing else about
/// the player changes.
pub fn level_switch<T, P>(player: &mut Player<T, P>, digits: &Vec<u8>)
    ensures
        final(player).current_level == level_after_digit_keys(old(player).current_level, digits@),
        final(player).level_change_stack@ == old(player).level_change_stack@,
        final(player).current_parcel == old(player).current_parcel,
        final(player).input_state == old(player).input_state,
{
    let level = level_after_keys(player.current_level, digits);
    switch(level, player);
}

/// Enters the level of a trigger: remembers where the player stood
/// (`location`) and in which level, unless the trigger leads to the
/// overworld, which forgets every level entered.
pub fn change_level<T, P>(player: &mut Player<T, P>, location: T, level_change: &LevelChange<P>)
    ensures
        final(player).current_level == level_change.level,
        final(player).level_change_stack@ == stack_after_change(
            old(player).level_change_stack@, old(player).current_level, location, level_change.level),
        final(player).current_parcel == old(player).current_parcel,
        final(player).input_state == old(player).input_state,
{
    let level_change_stack_data = LevelChangeStackData { level_id: player.current_level, location };
    player.current_level = level_change.level;
    player.level_change_stack.push(level_change_stack_data);
    if level_change.level == 0 {
        player.level_change_stack.clear();
    }
}

/// Leaves the innermost level entered: the player returns to the level
/// and location remembered, which are returned; with nothing to leave,
/// nothing changes.
pub fn exit_level<T, P>(player: &mut Player<T, P>) -> (location: Option<T>)
    ensures
        final(player).current_parcel == old(player).current_parcel,
        final(player).input_state == old(player).input_state,
        old(player).level_change_stack@.len() == 0 ==> {
            &&& location is None
            &&& final(player).current_level == old(player).current_level
            &&& final(player).level_change_stack@ == old(player).level_change_stack@
        },
        old(player).level_change_stack@.len() > 0 ==> {
            let top = old(player).level_change_stack@.last();
            &&& location == Some(top.location)
            &&& final(player).current_level == top.level_id
            &&& final(player).level_change_stack@ == old(player).level_change_stack@.drop_last()
        },
{
    match player.level_change_stack.pop() {
        Some(data) => {
            player.current_level = data.level_id;
            Some(data.location)
        },
        None => None,
    }
}

/// Entering a level other than the overworld and then leaving it gives
/// back the level and location the player left, and the levels entered
/// before.
pub proof fn lemma_exit_undoes_change<T>(stack: Seq<LevelChangeStackData<T>>, current_level: usize, location: T, level: usize)
    requires
        level != 0,
    ensures
        ({
            let after = stack_after_change(stack, current_level, location, level);
            &&& after.len() > 0
            &&& after.last().location == location
            &&& after.last().level_id == current_level
            &&& after.drop_last() == stack
        }),
{
    assert(stack.push(LevelChangeStackData { location, level_id: current_level }).drop_last() =~= stack);
}

/// Reacts to the interaction keys: `E` inside a level trigger starts
/// loading its level, `Escape` inside a level starts leaving it (and
/// wins when both are pressed). Returns whether the screen must start
/// fading out.
pub fn player_interact<T, P>(
    player: &mut Player<T, P>,
    interact_pressed: bool,
    escape_pressed: bool,
    trigger: Option<LevelChange<P>>,
) -> (fade_out: bool)
    ensures
        final(player).current_level == old(player).current_level,
        final(player).level_change_stack@ == old(player).level_change_stack@,
        final(player).current_parcel == old(player).current_parcel,
        fade_out == ((interact_pressed && trigger is Some)
            || (escape_pressed && old(player).level_change_stack@.len() > 0)),
        (escape_pressed && old(player).level_change_stack@.len() > 0) ==> final(player).input_state is ExitingLevel,
        !(escape_pressed && old(player).level_change_stack@.len() > 0) && interact_pressed && trigger is Some
            ==> final(player).input_state == PlayerInputState::LoadingLevel(trigger->0),
        !fade_out ==> final(player).input_state == old(player).input_state,
{
    let mut fade_out = false;
    if interact_pressed {
        if let Some(level_change) = trigger {
            player.input_state = PlayerInputState::LoadingLevel(level_change);
            fade_out = true;
        }
    }
    if escape_pressed && player.level_change_stack.len() > 0 {
        player.input_state = PlayerInputState::ExitingLevel;
        fade_out = true;
    }
    fade_out
}

/// What the game must do once the input state has moved on.
#[derive(Debug)]
pub enum InputAction<T, P> {
    /// Nothing happens.
    Wait,
    /// Place the player at the trigger's spawn point and fade in.
    EnterLevel(LevelChange<P>),
    /// Place the player at the location returned, if any, and fade in.
    ExitLevel(Option<T>),
}

/// Completes a pending level change once the screen has faded out: the
/// input returns to normal and the level is entered (from `location`)
/// or left.
pub fn player_input_state_update<T, P>(player: &mut Player<T, P>, fade_out_finished: bool, location: T)
    -> (action: InputAction<T, P>)
    ensures
        final(player).current_parcel == old(player).current_parcel,
        fade_out_finished && old(player).input_state is LoadingLevel ==> {
            let level_change = old(player).input_state->LoadingLevel_0;
            &&& final(player).input_state is Normal
            &&& final(player).current_level == level_change.level
            &&& final(player).level_change_stack@ == stack_after_change(
                old(player).level_change_stack@, old(player).current_level, location, level_change.level)
            &&& action == InputAction::<T, P>::EnterLevel(level_change)
        },
        fade_out_finished && old(player).input_state is ExitingLevel ==> {
            &&& final(player).input_state is Normal
            &&& (old(player).level_change_stack@.len() == 0 ==> {
                &&& action == InputAction::<T, P>::ExitLevel(None)
                &&& final(player).current_level == old(player).current_level
                &&& final(player).level_change_stack@ == old(player).level_change_stack@
            })
            &&& (old(player).level_change_stack@.len() > 0 ==> {
                let top = old(player).level_change_stack@.last();
                &&& action == InputAction::<T, P>::ExitLevel(Some(top.location))
                &&& final(player).current_level == top.level_id
                &&& final(player).level_change_stack@ == old(player).level_change_stack@.drop_last()
            })
        },
        !fade_out_finished || old(player).input_state is Normal ==> {
            &&& final(player).input_state == old(player).input_state
            &&& final(player).current_level == old(player).current_level
            &&& final(player).level_change_stack@ == old(player).level_change_stack@
            &&& action is Wait
        },
{
    if !fade_out_finished {
        return InputAction::Wait;
    }
    let mut state = PlayerInputState::Normal;
    std::mem::swap(&mut state, &mut player.input_state);
    match state {
        PlayerInputState::Normal => InputAction::Wait,
        PlayerInputState::LoadingLevel(level_to_load) => {
            change_level(player, location, &level_to_load);
            InputAction::EnterLevel(level_to_load)
        },
        PlayerInputState::ExitingLevel => {
            let location = exit_level(player);
            InputAction::ExitLevel(location)
        },
    }
}

} // verus!
