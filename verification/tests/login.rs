use dcl2d::login::{display_text, get_dots, next_loading_icon_index, DisplayText, LoginAction, LoginState};
use dcl2d::states::AppState;

#[test]
fn eth_address_updates_when_web_task_finishes() {
    let mut state = LoginState::new("0x270722b5222968603E4650C3b70A7DfB971Ed5B6".to_string());
    let new_address = "new_address".to_string();
    let action = state.web_login_finished(Some(new_address.clone()));
    assert_eq!(new_address, state.eth_address);
    assert_eq!(action, LoginAction::MakeAvatar("new_address".to_string()));
    assert_eq!(state.display, DisplayText::MakingAvatar);
}

#[test]
fn changes_states_after_avatar_making_finishes() {
    let mut state = LoginState::new(String::new());
    state.avatar_maker_finished();
    assert_eq!(AppState::InGame, state.next_state);
    assert_eq!(state.display, DisplayText::Loading2dcl);
}

#[test]
fn web_login_without_address_changes_nothing() {
    let mut state = LoginState::new("a".to_string());
    state.button_pressed();
    let action = state.web_login_finished(None);
    assert_eq!(action, LoginAction::Nothing);
    assert_eq!(state.eth_address, "a");
    assert_eq!(state.display, DisplayText::WebLogin);
    assert_eq!(state.next_state, AppState::MetamaskLogin);
}

#[test]
fn pressing_login_starts_the_web_login() {
    let mut state = LoginState::new(String::new());
    assert_eq!(state.button_pressed(), LoginAction::StartWebLogin);
    assert_eq!(state.display, DisplayText::WebLogin);
}

#[test]
fn dots_count_up_to_three_then_restart() {
    assert_eq!(get_dots("Making avatar", false), "");
    assert_eq!(get_dots("Making avatar", true), ".");
    assert_eq!(get_dots("Making avatar..", true), "...");
    assert_eq!(get_dots("Making avatar...", true), ".");
    assert_eq!(get_dots("Making avatar..", false), "..");
}

#[test]
fn display_texts() {
    assert_eq!(display_text(DisplayText::WatingForInput, "", false), "2023 DECENTRALAND AND HIDDEN PEOPLE CLUB.");
    assert_eq!(display_text(DisplayText::WebLogin, "", true), "Continue the login process in your browser.");
    assert_eq!(
        display_text(DisplayText::MakingAvatar, "Continue the login process in your browser.", true),
        "Making avatar.."
    );
    assert_eq!(display_text(DisplayText::Loading2dcl, "Making avatar...", true), "Loading 2dcl.");
}

#[test]
fn loading_icon_cycles_through_eight_frames() {
    assert_eq!(next_loading_icon_index(0, true), 1);
    assert_eq!(next_loading_icon_index(6, true), 7);
    assert_eq!(next_loading_icon_index(7, true), 0);
    assert_eq!(next_loading_icon_index(3, false), 3);
}

#[test]
fn app_starts_at_the_login() {
    assert_eq!(AppState::default(), AppState::MetamaskLogin);
}
