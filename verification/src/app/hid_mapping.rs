//! The calls that stand for a key of a remote control.
use crate::text;
use vstd::prelude::*;

verus! {

/// A key of a remote control.
#[derive(Clone, Copy, Debug, PartialEq, Eq, Structural)]
pub enum HidCommand {
    Play,
    Pause,
    PlayPause,
    Next,
    Previous,
    Shuffle,
    Repeat,
    VolumeUp,
    VolumeDown,
}

/// The key that a method stands for, if any.
pub open spec fn hid_command(method: Seq<char>) -> Option<HidCommand> {
    if method == "media.control.play"@ {
        Some(HidCommand::Play)
    } else if method == "media.control.pause"@ {
        Some(HidCommand::Pause)
    } else if method == "media.control.playPause"@ || method == "media.control.togglePlayPause"@ {
        Some(HidCommand::PlayPause)
    } else if method == "media.control.next"@ {
        Some(HidCommand::Next)
    } else if method == "media.control.previous"@ || method == "media.control.prev"@ {
        Some(HidCommand::Previous)
    } else if method == "media.control.shuffle"@ {
        Some(HidCommand::Shuffle)
    } else if method == "media.control.repeat"@ {
        Some(HidCommand::Repeat)
    } else if method == "media.control.volumeUp"@ {
        Some(HidCommand::VolumeUp)
    } else if method == "media.control.volumeDown"@ {
        Some(HidCommand::VolumeDown)
    } else {
        None
    }
}

/// The key that a method stands for.
pub fn method_to_hid_command(method: &str) -> (r: Option<HidCommand>)
    ensures
        r == hid_command(method@),
{
    if text::same(method, "media.control.play") {
        Some(HidCommand::Play)
    } else if text::same(method, "media.control.pause") {
        Some(HidCommand::Pause)
    } else if text::same(method, "media.control.playPause") || text::same(
        method,
        "media.control.togglePlayPause",
    ) {
        Some(HidCommand::PlayPause)
    } else if text::same(method, "media.control.next") {
        Some(HidCommand::Next)
    } else if text::same(method, "media.control.previous") || text::same(
        method,
        "media.control.prev",
    ) {
        Some(HidCommand::Previous)
    } else if text::same(method, "media.control.shuffle") {
        Some(HidCommand::Shuffle)
    } else if text::same(method, "media.control.repeat") {
        Some(HidCommand::Repeat)
    } else if text::same(method, "media.control.volumeUp") {
        Some(HidCommand::VolumeUp)
    } else if text::same(method, "media.control.volumeDown") {
        Some(HidCommand::VolumeDown)
    } else {
        None
    }
}

/// Every key has its methods, and no method stands for two keys.
pub proof fn law_keys_have_their_methods(method: Seq<char>)
    ensures
        hid_command(method) == Some(HidCommand::Play) <==> method == "media.control.play"@,
        hid_command(method) == Some(HidCommand::Pause) <==> method == "media.control.pause"@,
        hid_command(method) == Some(HidCommand::PlayPause) <==> method == "media.control.playPause"@
            || method == "media.control.togglePlayPause"@,
        hid_command(method) == Some(HidCommand::Next) <==> method == "media.control.next"@,
        hid_command(method) == Some(HidCommand::Previous) <==> method == "media.control.previous"@
            || method == "media.control.prev"@,
        hid_command(method) == Some(HidCommand::Shuffle) <==> method == "media.control.shuffle"@,
        hid_command(method) == Some(HidCommand::Repeat) <==> method == "media.control.repeat"@,
        hid_command(method) == Some(HidCommand::VolumeUp) <==> method == "media.control.volumeUp"@,
        hid_command(method) == Some(HidCommand::VolumeDown) <==> method
            == "media.control.volumeDown"@,
{
    reveal_strlit("media.control.play");
    reveal_strlit("media.control.pause");
    reveal_strlit("media.control.playPause");
    reveal_strlit("media.control.togglePlayPause");
    reveal_strlit("media.control.next");
    reveal_strlit("media.control.previous");
    reveal_strlit("media.control.prev");
    reveal_strlit("media.control.shuffle");
    reveal_strlit("media.control.repeat");
    reveal_strlit("media.control.volumeUp");
    reveal_strlit("media.control.volumeDown");
    assert("media.control.play"@.len() == 18 && "media.control.pause"@.len() == 19);
    assert("media.control.playPause"@.len() == 23);
    assert("media.control.togglePlayPause"@.len() == 29 && "media.control.next"@.len() == 18);
    assert("media.control.previous"@.len() == 22);
    assert("media.control.prev"@.len() == 18 && "media.control.shuffle"@.len() == 21);
    assert("media.control.repeat"@.len() == 20);
    assert("media.control.volumeUp"@.len() == 22 && "media.control.volumeDown"@.len() == 24);
    assert("media.control.play"@[14] != "media.control.next"@[14]);
    assert("media.control.play"@[15] != "media.control.prev"@[15]);
    assert("media.control.next"@[14] != "media.control.prev"@[14]);
    assert("media.control.previous"@[14] != "media.control.volumeUp"@[14]);
}

} // verus!
