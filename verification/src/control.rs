use vstd::prelude::*;
use vstd::utf8::*;

use crate::text::str_eq;

verus! {

broadcast use {vstd::utf8::encode_utf8_valid_utf8, vstd::utf8::encode_utf8_decode_utf8};

/// An order that `control` sends to a running player.
#[derive(Clone, Copy, Debug, PartialEq, Eq, Structural)]
pub enum ControlAction {
    Next,
    Prev,
    Reload,
    Stop,
    Continue,
}

/// Whether the player shows its wallpapers one after another or holds the current one.
#[derive(Clone, Copy, Debug, PartialEq, Eq, Structural)]
pub enum PlayState {
    Playing,
    Stopped,
}

/// The name of an action, as it is written and sent.
pub open spec fn action_name(action: ControlAction) -> Seq<char> {
    match action {
        ControlAction::Next => "Next"@,
        ControlAction::Prev => "Prev"@,
        ControlAction::Reload => "Reload"@,
        ControlAction::Stop => "Stop"@,
        ControlAction::Continue => "Continue"@,
    }
}

/// The action with the name `s`, letter for letter.
pub open spec fn action_named(s: Seq<char>) -> Option<ControlAction> {
    if s == "Next"@ {
        Some(ControlAction::Next)
    } else if s == "Prev"@ {
        Some(ControlAction::Prev)
    } else if s == "Reload"@ {
        Some(ControlAction::Reload)
    } else if s == "Stop"@ {
        Some(ControlAction::Stop)
    } else if s == "Continue"@ {
        Some(ControlAction::Continue)
    } else {
        None
    }
}

/// The name of a play state, as it is written and stored.
pub open spec fn state_name(state: PlayState) -> Seq<char> {
    match state {
        PlayState::Playing => "Playing"@,
        PlayState::Stopped => "Stopped"@,
    }
}

/// The play state with the name `s`, letter for letter.
pub open spec fn state_named(s: Seq<char>) -> Option<PlayState> {
    if s == "Playing"@ {
        Some(PlayState::Playing)
    } else if s == "Stopped"@ {
        Some(PlayState::Stopped)
    } else {
        None
    }
}

/// The play state after `action`, given the stored state: a stop stops, a
/// continue plays, and any other action keeps the stored state (playing when
/// none is stored or it is no state's name).
pub open spec fn next_state(current_state: Option<Seq<char>>, action: ControlAction) -> PlayState {
    match action {
        ControlAction::Stop => PlayState::Stopped,
        ControlAction::Continue => PlayState::Playing,
        _ => match current_state {
            Some(s) => match state_named(s) {
                Some(state) => state,
                None => PlayState::Playing,
            },
            None => PlayState::Playing,
        },
    }
}

impl ControlAction {
    /// The name of the action.
    pub fn name(&self) -> (r: &'static str)
        ensures
            r@ == action_name(*self),
    {
        match self {
            ControlAction::Next => "Next",
            ControlAction::Prev => "Prev",
            ControlAction::Reload => "Reload",
            ControlAction::Stop => "Stop",
            ControlAction::Continue => "Continue",
        }
    }

    /// The name of the action, as `Display` writes it.
    pub fn to_string(&self) -> (r: String)
        ensures
            r@ == action_name(*self),
    {
        self.name().to_owned()
    }

    /// The action named `s` (`FromStr`): the name must match letter for letter.
    pub fn from_str(s: &str) -> (r: Option<ControlAction>)
        ensures
            r == action_named(s@),
    {
        if str_eq(s, "Next") {
            Some(ControlAction::Next)
        } else if str_eq(s, "Prev") {
            Some(ControlAction::Prev)
        } else if str_eq(s, "Reload") {
            Some(ControlAction::Reload)
        } else if str_eq(s, "Stop") {
            Some(ControlAction::Stop)
        } else if str_eq(s, "Continue") {
            Some(ControlAction::Continue)
        } else {
            None
        }
    }

    /// The play state after `action`, given the stored state.
    pub fn to_state(current_state: Option<String>, action: &ControlAction) -> (r: PlayState)
        ensures
            r == next_state(
                match current_state {
                    Some(s) => Some(s@),
                    None => None,
                },
                *action,
            ),
    {
        match action {
            ControlAction::Stop => PlayState::Stopped,
            ControlAction::Continue => PlayState::Playing,
            _ => match current_state {
                Some(state) => match PlayState::from_str(state.as_str()) {
                    Some(s) => s,
                    None => PlayState::Playing,
                },
                None => PlayState::Playing,
            },
        }
    }

    /// The action chosen on the command line of `control`: the first flag set of
    /// `--next`, `--prev`, `--reload`, `--stop`, `--continue`.
    pub fn from_flags(next: bool, prev: bool, reload: bool, stop: bool, cont: bool) -> (r: Option<ControlAction>)
        ensures
            r == (if next {
                Some(ControlAction::Next)
            } else if prev {
                Some(ControlAction::Prev)
            } else if reload {
                Some(ControlAction::Reload)
            } else if stop {
                Some(ControlAction::Stop)
            } else if cont {
                Some(ControlAction::Continue)
            } else {
                None
            }),
    {
        if next {
            Some(ControlAction::Next)
        } else if prev {
            Some(ControlAction::Prev)
        } else if reload {
            Some(ControlAction::Reload)
        } else if stop {
            Some(ControlAction::Stop)
        } else if cont {
            Some(ControlAction::Continue)
        } else {
            None
        }
    }

    /// The action that a received message names, if it names one.
    pub fn form(message_string: &str) -> (r: Option<ControlAction>)
        ensures
            r == action_named(message_string@),
    {
        ControlAction::from_str(message_string)
    }
}

impl PlayState {
    /// The name of the state.
    pub fn name(&self) -> (r: &'static str)
        ensures
            r@ == state_name(*self),
    {
        match self {
            PlayState::Playing => "Playing",
            PlayState::Stopped => "Stopped",
        }
    }

    /// The name of the state, as `Display` writes it.
    pub fn to_string(&self) -> (r: String)
        ensures
            r@ == state_name(*self),
    {
        self.name().to_owned()
    }

    /// The state named `s` (`FromStr`): the name must match letter for letter.
    pub fn from_str(s: &str) -> (r: Option<PlayState>)
        ensures
            r == state_named(s@),
    {
        if str_eq(s, "Playing") {
            Some(PlayState::Playing)
        } else if str_eq(s, "Stopped") {
            Some(PlayState::Stopped)
        } else {
            None
        }
    }

    /// Whether `state_str` is the name of the stopped state.
    pub fn is_stopped(state_str: &str) -> (r: bool)
        ensures
            r == (state_str@ == state_name(PlayState::Stopped)),
    {
        str_eq(state_str, PlayState::Stopped.name())
    }
}

/// Reading back the name of an action gives the action.
pub proof fn lemma_action_name_round_trip(action: ControlAction)
    ensures
        action_named(action_name(action)) == Some(action),
{
    reveal_strlit("Next");
    reveal_strlit("Prev");
    reveal_strlit("Reload");
    reveal_strlit("Stop");
    reveal_strlit("Continue");
    assert(forall|a: Seq<char>, b: Seq<char>| a.len() > 0 && b.len() > 0 && a[0] != b[0] ==> a != b);
    assert("Next"@[0] == 'N' && "Prev"@[0] == 'P' && "Reload"@[0] == 'R' && "Stop"@[0] == 'S' && "Continue"@[0] == 'C');
}

/// Reading back the name of a play state gives the state.
pub proof fn lemma_state_name_round_trip(state: PlayState)
    ensures
        state_named(state_name(state)) == Some(state),
{
    reveal_strlit("Playing");
    reveal_strlit("Stopped");
    assert("Playing"@ != "Stopped"@) by {
        assert("Playing"@[1] != "Stopped"@[1]);
    }
}

/// A state stored by its name survives any action but stop and continue;
/// a stop always leaves the player stopped, a continue always playing.
pub proof fn lemma_state_kept(state: PlayState, action: ControlAction)
    ensures
        action == ControlAction::Stop ==> next_state(Some(state_name(state)), action) == PlayState::Stopped,
        action == ControlAction::Continue ==> next_state(Some(state_name(state)), action) == PlayState::Playing,
        action != ControlAction::Stop && action != ControlAction::Continue ==> next_state(
            Some(state_name(state)),
            action,
        ) == state,
{
    lemma_state_name_round_trip(state);
}

/// What `save_play_state` stores after a stop holds the next wallpaper
/// (`is_stopped` reads it as stopped); after a continue it does not.
pub proof fn lemma_stop_is_remembered(current_state: Option<Seq<char>>)
    ensures
        state_name(next_state(current_state, ControlAction::Stop)) == state_name(PlayState::Stopped),
        state_name(next_state(current_state, ControlAction::Continue)) != state_name(PlayState::Stopped),
{
    lemma_state_name_round_trip(PlayState::Stopped);
}

/// The size of a message's text.
pub const MESSAGE_TEXT_LEN: usize = 256;

/// The message key of the player's queue (System V).
pub const CONTROL_QUEUE_KEY: i32 = 22333;

/// A message of the player's queue: its type and a NUL-terminated text.
pub struct Message {
    pub mtype: i64,
    pub mtext: [u8; 256],
}

/// The text of a message that carries `bytes`: the bytes, then zeros.
pub open spec fn message_text(bytes: Seq<u8>) -> Seq<u8> {
    Seq::new(256, |i: int| if i < bytes.len() { bytes[i] } else { 0u8 })
}

/// How many bytes of a message carrying `bytes` are sent: the bytes and their NUL.
pub open spec fn message_len(bytes: Seq<u8>) -> nat {
    bytes.len() + 1
}

/// The bytes of a text up to its first NUL (all of them when it has none).
pub open spec fn until_nul(text: Seq<u8>) -> Seq<u8>
    decreases text.len(),
{
    if text.len() == 0 {
        text
    } else if text[0] == 0 {
        Seq::empty()
    } else {
        seq![text[0]] + until_nul(text.drop_first())
    }
}

/// What `String::from_utf8_lossy` gives for bytes that are not valid UTF-8.
pub uninterp spec fn spec_utf8_lossy(bytes: Seq<u8>) -> Seq<char>;

/// The characters that `String::from_utf8_lossy` reads from `bytes`.
pub open spec fn lossy_text(bytes: Seq<u8>) -> Seq<char> {
    if valid_utf8(bytes) {
        decode_utf8(bytes)
    } else {
        spec_utf8_lossy(bytes)
    }
}

/// `String::from_utf8_lossy` (std): for valid UTF-8 the characters it encodes;
/// otherwise each invalid sequence becomes U+FFFD, which is named, not written out.
#[verifier::external_body]
fn utf8_lossy(bytes: &[u8]) -> (r: String)
    ensures
        valid_utf8(bytes@) ==> r@ == decode_utf8(bytes@),
        !valid_utf8(bytes@) ==> r@ == spec_utf8_lossy(bytes@),
{
    String::from_utf8_lossy(bytes).into_owned()
}

/// The message that asks a running player for `action`, and how many of its
/// bytes are sent. `None` when the text holds a NUL byte (it cannot be sent
/// as a C string) or when the text and its NUL do not fit in a message.
pub fn control_message(action: &str) -> (r: Option<(Message, usize)>)
    ensures
        r is None <==> (encode_utf8(action@).contains(0u8) || encode_utf8(action@).len() >= 256),
        r matches Some((msg, len)) ==> {
            &&& msg.mtype == 1
            &&& msg.mtext@ == message_text(encode_utf8(action@))
            &&& len == message_len(encode_utf8(action@))
        },
{
    let bytes = action.as_bytes();
    let mut i: usize = 0;
    while i < bytes.len()
        invariant
            i <= bytes.len(),
            bytes@ == encode_utf8(action@),
            forall|j: int| 0 <= j < i ==> bytes@[j] != 0u8,
        decreases bytes.len() - i,
    {
        if bytes[i] == 0u8 {
            return None;
        }
        i = i + 1;
    }
    if bytes.len() >= 256 {
        return None;
    }
    let mut mtext = [0u8; 256];
    let mut i: usize = 0;
    while i < bytes.len()
        invariant
            i <= bytes.len(),
            bytes.len() < 256,
            mtext@.len() == 256,
            forall|j: int| 0 <= j < i ==> mtext@[j] == bytes@[j],
            forall|j: int| i <= j < 256 ==> mtext@[j] == 0u8,
        decreases bytes.len() - i,
    {
        mtext[i] = bytes[i];
        i = i + 1;
    }
    let len = bytes.len() + 1;
    proof {
        assert(mtext@ =~= message_text(encode_utf8(action@)));
    }
    Some((Message { mtype: 1, mtext }, len))
}

/// The text that a received message carries: its bytes up to the first NUL, read as UTF-8.
pub fn message_string(msg: &Message) -> (r: String)
    ensures
        r@ == lossy_text(until_nul(msg.mtext@)),
{
    let mut bytes: Vec<u8> = Vec::new();
    let mut i: usize = 0;
    let mut done = false;
    assert(msg.mtext@.skip(0) =~= msg.mtext@);
    while i < 256 && !done
        invariant
            i <= 256,
            msg.mtext@.len() == 256,
            !done ==> until_nul(msg.mtext@) == bytes@ + until_nul(msg.mtext@.skip(i as int)),
            done ==> until_nul(msg.mtext@) == bytes@,
        decreases 256 - i, (if done { 0int } else { 1int }),
    {
        let b = msg.mtext[i];
        let ghost rest = msg.mtext@.skip(i as int);
        assert(rest[0] == b);
        assert(rest.drop_first() =~= msg.mtext@.skip(i + 1));
        if b == 0u8 {
            assert(bytes@ + Seq::<u8>::empty() =~= bytes@);
            done = true;
        } else {
            let ghost before = bytes@;
            bytes.push(b);
            assert(before + (seq![b] + until_nul(rest.drop_first())) =~= bytes@ + until_nul(rest.drop_first()));
            i = i + 1;
        }
    }
    proof {
        if !done {
            assert(msg.mtext@.skip(256) =~= Seq::<u8>::empty());
            assert(bytes@ + Seq::<u8>::empty() =~= bytes@);
        }
    }
    utf8_lossy(bytes.as_slice())
}

/// The action that a received message asks for, if it names one.
pub fn received_action(msg: &Message) -> (r: Option<ControlAction>)
    ensures
        r == action_named(lossy_text(until_nul(msg.mtext@))),
{
    let s = message_string(msg);
    ControlAction::form(s.as_str())
}

proof fn lemma_scalar_bytes_not_nul(c: u32)
    requires
        is_scalar(c),
        c != 0,
    ensures
        !encode_scalar(c).contains(0u8),
{
    if has_width_1_encoding(c) {
        assert(leading_byte_width_1(c) != 0) by (bit_vector)
            requires
                0 < c <= 0x7F,
        ;
    } else if has_width_2_encoding(c) {
        assert(leading_byte_width_2(c) != 0 && last_continuation_byte(c) != 0) by (bit_vector);
    } else if has_width_3_encoding(c) {
        assert(leading_byte_width_3(c) != 0 && second_last_continuation_byte(c) != 0
            && last_continuation_byte(c) != 0) by (bit_vector);
    } else {
        assert(leading_byte_width_4(c) != 0 && third_last_continuation_byte(c) != 0
            && second_last_continuation_byte(c) != 0 && last_continuation_byte(c) != 0) by (bit_vector);
    }
}

/// The UTF-8 bytes of a text without NUL characters hold no zero byte.
pub proof fn lemma_encode_utf8_no_nul(s: Seq<char>)
    requires
        !s.contains('\0'),
    ensures
        !encode_utf8(s).contains(0u8),
    decreases s.len(),
{
    broadcast use vstd::utf8::char_is_scalar;
    if s.len() > 0 {
        assert(s[0] != '\0');
        vstd::utf8::char_is_scalar(s[0]);
        if s[0] as u32 == 0 {
            vstd::utf8::char_u32_cast(s[0], 0u32);
            assert((0u32 as char) == '\0');
        }
        lemma_scalar_bytes_not_nul(s[0] as u32);
        assert(!s.drop_first().contains('\0')) by {
            if s.drop_first().contains('\0') {
                let j = choose|j: int| 0 <= j < s.drop_first().len() && s.drop_first()[j] == '\0';
                assert(s[j + 1] == '\0');
            }
        }
        lemma_encode_utf8_no_nul(s.drop_first());
        let a = encode_scalar(s[0] as u32);
        let b = encode_utf8(s.drop_first());
        assert(!(a + b).contains(0u8)) by {
            if (a + b).contains(0u8) {
                let j = choose|j: int| 0 <= j < (a + b).len() && (a + b)[j] == 0u8;
                if j < a.len() {
                    assert(a[j] == 0u8);
                } else {
                    assert(b[j - a.len()] == 0u8);
                }
            }
        }
    }
}

proof fn lemma_until_nul_of_text(bytes: Seq<u8>)
    requires
        !bytes.contains(0u8),
        bytes.len() < 256,
    ensures
        until_nul(message_text(bytes)) == bytes,
{
    let text = message_text(bytes);
    assert forall|k: int| 0 <= k <= bytes.len() implies until_nul(#[trigger] text.skip(k)) =~= bytes.skip(k) by {
        lemma_until_nul_suffix(bytes, k);
    }
    assert(text.skip(0) =~= text);
    assert(bytes.skip(0) =~= bytes);
}

proof fn lemma_until_nul_suffix(bytes: Seq<u8>, k: int)
    requires
        !bytes.contains(0u8),
        bytes.len() < 256,
        0 <= k <= bytes.len(),
    ensures
        until_nul(message_text(bytes).skip(k)) =~= bytes.skip(k),
    decreases bytes.len() - k,
{
    let text = message_text(bytes);
    let rest = text.skip(k);
    if k == bytes.len() {
        assert(rest[0] == 0u8);
        assert(bytes.skip(k) =~= Seq::<u8>::empty());
    } else {
        assert(rest[0] == bytes[k]);
        assert(bytes[k] != 0u8) by {
            if bytes[k] == 0u8 {
                assert(bytes.contains(0u8));
            }
        }
        assert(rest.drop_first() =~= text.skip(k + 1));
        lemma_until_nul_suffix(bytes, k + 1);
        assert(seq![bytes[k]] + bytes.skip(k + 1) =~= bytes.skip(k));
    }
}

/// What `control` sends, a player reads back: for any text without NUL whose
/// UTF-8 form fits in a message with its NUL, the received text is the sent text.
pub proof fn lemma_message_round_trip(s: Seq<char>)
    requires
        !s.contains('\0'),
        encode_utf8(s).len() < 256,
    ensures
        !encode_utf8(s).contains(0u8),
        lossy_text(until_nul(message_text(encode_utf8(s)))) == s,
{
    lemma_encode_utf8_no_nul(s);
    lemma_until_nul_of_text(encode_utf8(s));
}

/// Every action that `control` sends by its name fits in a message and reaches
/// the player as that action.
pub proof fn lemma_action_message_round_trip(action: ControlAction)
    ensures
        !encode_utf8(action_name(action)).contains(0u8),
        encode_utf8(action_name(action)).len() < 256,
        action_named(lossy_text(until_nul(message_text(encode_utf8(action_name(action)))))) == Some(action),
{
    let s = action_name(action);
    reveal_strlit("Next");
    reveal_strlit("Prev");
    reveal_strlit("Reload");
    reveal_strlit("Stop");
    reveal_strlit("Continue");
    assert(is_ascii_chars(s));
    is_ascii_chars_encode_utf8(s);
    assert(!s.contains('\0')) by {
        if s.contains('\0') {
            let j = choose|j: int| 0 <= j < s.len() && s[j] == '\0';
            assert(s[j] != '\0');
        }
    }
    lemma_message_round_trip(s);
    lemma_action_name_round_trip(action);
}

} // verus!
