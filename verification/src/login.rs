use vstd::prelude::*;
use vstd::string::*;
use crate::states::AppState;

verus! {

/// Number of frames of the loading icon's animation.
pub const LOADING_ANIMATION_SPRITE_COUNT: usize = 8;

/// What the login screen tells the user.
#[derive(Debug, Clone, Copy, PartialEq, Eq, Structural)]
pub enum DisplayText {
    WatingForInput,
    WebLogin,
    MakingAvatar,
    Loading2dcl,
}

/// Number of `.` in a text.
pub open spec fn dot_count(s: Seq<char>) -> nat
    decreases s.len(),
{
    if s.len() == 0 {
        0
    } else {
        dot_count(s.drop_last()) + if s.last() == '.' { 1nat } else { 0nat }
    }
}

/// The dots that follow a message being animated: as many as the text
/// shown before had, one more each time the animation timer fires, and
/// back to one after three.
pub open spec fn dots_after(previous: Seq<char>, timer_just_finished: bool) -> nat {
    let n = dot_count(previous);
    if timer_just_finished {
        if n + 1 > 3 { 1 } else { n + 1 }
    } else {
        n
    }
}

/// A text of `n` dots.
pub open spec fn dots(n: nat) -> Seq<char> {
    Seq::new(n, |i: int| '.')
}

/// The message of each state of the login screen, given the text shown
/// before and whether the dot animation timer just fired.
pub open spec fn display_message(display: DisplayText, previous: Seq<char>, timer_just_finished: bool) -> Seq<char> {
    match display {
        DisplayText::WatingForInput => "2023 DECENTRALAND AND HIDDEN PEOPLE CLUB."@,
        DisplayText::WebLogin => "Continue the login process in your browser."@,
        DisplayText::MakingAvatar => "Making avatar"@ + dots(dots_after(previous, timer_just_finished)),
        DisplayText::Loading2dcl => "Loading 2dcl"@ + dots(dots_after(previous, timer_just_finished)),
    }
}

/// Counts the `.` of a text.
fn count_dots(s: &str) -> (n: usize)
    ensures
        n == dot_count(s@),
{
    let len = s.unicode_len();
    let mut n: usize = 0;
    let mut i: usize = 0;
    while i < len
        invariant
            i <= len == s@.len(),
            n == dot_count(s@.subrange(0, i as int)),
            n <= i,
        decreases len - i,
    {
        let c = s.get_char(i);
        proof {
            assert(s@.subrange(0, i + 1).drop_last() =~= s@.subrange(0, i as int));
        }
        if c == '.' {
            n = n + 1;
        }
        i = i + 1;
    }
    proof {
        assert(s@.subrange(0, len as int) =~= s@);
    }
    n
}

/// The dots to show after an animated message.
pub fn get_dots(previous: &str, timer_just_finished: bool) -> (d: String)
    ensures
        d@ == dots(dots_after(previous@, timer_just_finished)),
{
    let mut total_dots = count_dots(previous);
    if timer_just_finished {
        total_dots = if total_dots >= 3 { 1 } else { total_dots + 1 };
    }
    let mut d = String::new();
    let mut i: usize = 0;
    while i < total_dots
        invariant
            i <= total_dots,
            d@ == dots(i as nat),
        decreases total_dots - i,
    {
        d.append(".");
        proof {
            reveal_strlit(".");
            assert(d@ =~= dots((i + 1) as nat));
        }
        i = i + 1;
    }
    d
}

/// The text of the login screen for its state.
pub fn display_text(display: DisplayText, previous: &str, timer_just_finished: bool) -> (text: String)
    ensures
        text@ == display_message(display, previous@, timer_just_finished),
{
    match display {
        DisplayText::WatingForInput => String::from_str("2023 DECENTRALAND AND HIDDEN PEOPLE CLUB."),
        DisplayText::WebLogin => String::from_str("Continue the login process in your browser."),
        DisplayText::MakingAvatar => {
            let mut text = String::from_str("Making avatar");
            let d = get_dots(previous, timer_just_finished);
            text.append(d.as_str());
            text
        },
        DisplayText::Loading2dcl => {
            let mut text = String::from_str("Loading 2dcl");
            let d = get_dots(previous, timer_just_finished);
            text.append(d.as_str());
            text
        },
    }
}

/// The frame of the loading icon after a tick of its timer: the next
/// one when the timer fires, back to the first after the last.
pub fn next_loading_icon_index(index: usize, timer_just_finished: bool) -> (next: usize)
    ensures
        !timer_just_finished ==> next == index,
        timer_just_finished && index >= LOADING_ANIMATION_SPRITE_COUNT - 1 ==> next == 0,
        timer_just_finished && index < LOADING_ANIMATION_SPRITE_COUNT - 1 ==> next == index + 1,
{
    if timer_just_finished {
        if index >= LOADING_ANIMATION_SPRITE_COUNT - 1 {
            0
        } else {
            index + 1
        }
    } else {
        index
    }
}

/// The state of the login screen: what it shows, the wallet address of
/// the avatar, and the screen the client moves to.
#[derive(Debug)]
pub struct LoginState {
    pub display: DisplayText,
    pub eth_address: String,
    pub next_state: AppState,
}

/// What the screen must start after an event.
#[derive(Debug, Clone, PartialEq, Eq)]
pub enum LoginAction {
    /// Nothing.
    Nothing,
    /// Start the login in the browser, in the background.
    StartWebLogin,
    /// Make the avatar of this address, in the background.
    MakeAvatar(String),
}

impl LoginState {
    /// The login screen as it opens, with the address of the
    /// configuration.
    pub fn new(eth_address: String) -> (s: LoginState)
        ensures
            s.display == DisplayText::WatingForInput,
            s.eth_address@ == eth_address@,
            s.next_state == AppState::MetamaskLogin,
    {
        LoginState { display: DisplayText::WatingForInput, eth_address, next_state: AppState::MetamaskLogin }
    }

    /// The login button was pressed: the user is sent to the browser.
    pub fn button_pressed(&mut self) -> (action: LoginAction)
        ensures
            final(self).display == DisplayText::WebLogin,
            final(self).eth_address@ == old(self).eth_address@,
            final(self).next_state == old(self).next_state,
            action == LoginAction::StartWebLogin,
    {
        self.display = DisplayText::WebLogin;
        LoginAction::StartWebLogin
    }

    /// The browser login ended, with the user's address or without one:
    /// with one, the address is kept and the avatar is made.
    pub fn web_login_finished(&mut self, address: Option<String>) -> (action: LoginAction)
        ensures
            final(self).next_state == old(self).next_state,
            match address {
                Some(a) => {
                    &&& final(self).display == DisplayText::MakingAvatar
                    &&& final(self).eth_address@ == a@
                    &&& action matches LoginAction::MakeAvatar(m) && m@ == a@
                },
                None => {
                    &&& final(self).display == old(self).display
                    &&& final(self).eth_address@ == old(self).eth_address@
                    &&& action == LoginAction::Nothing
                },
            },
    {
        match address {
            Some(a) => {
                self.display = DisplayText::MakingAvatar;
                self.eth_address = a.clone();
                LoginAction::MakeAvatar(a)
            },
            None => LoginAction::Nothing,
        }
    }

    /// The avatar is made: the client loads and enters the game.
    pub fn avatar_maker_finished(&mut self)
        ensures
            final(self).display == DisplayText::Loading2dcl,
            final(self).eth_address@ == old(self).eth_address@,
            final(self).next_state == AppState::InGame,
    {
        self.display = DisplayText::Loading2dcl;
        self.next_state = AppState::InGame;
    }
}

} // verus!
