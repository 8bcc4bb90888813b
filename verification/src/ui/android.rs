//! The Android-specific decisions: when the wallpaper accent color applies
//! and how its ARGB value splits into channels, where the bundled daemon
//! lives, and what the UI reports about starting it.
use vstd::prelude::*;

use crate::config_gen::{join_path, path_join};
use crate::text::{dec, owned, push_dec, push_str};

verus! {

/// The first Android API level with a wallpaper-derived accent palette.
pub open spec fn dynamic_color_api() -> int {
    31
}

/// Whether the running Android version has dynamic colors.
pub fn dynamic_color_supported(sdk_int: i32) -> (b: bool)
    ensures
        b == (sdk_int >= dynamic_color_api()),
{
    sdk_int >= 31
}

/// A color split into its 8-bit channels.
#[derive(Debug, Clone, Copy, PartialEq, Eq)]
pub struct Rgba {
    pub alpha: u8,
    pub red: u8,
    pub green: u8,
    pub blue: u8,
}

/// The channels of an Android ARGB color int: alpha in the top byte, then
/// red, green and blue.
pub fn accent_color(argb: i32) -> (c: Rgba)
    ensures
        c.alpha as int == (argb as u32) / 0x100_0000,
        c.red as int == ((argb as u32) / 0x1_0000) % 0x100,
        c.green as int == ((argb as u32) / 0x100) % 0x100,
        c.blue as int == (argb as u32) % 0x100,
{
    let u = argb as u32;
    let alpha = (u >> 24) as u8;
    let red = (u >> 16) as u8;
    let green = (u >> 8) as u8;
    let blue = u as u8;
    assert(alpha as int == u / 0x100_0000) by (bit_vector)
        requires
            alpha == (u >> 24) as u8,
    ;
    assert(red as int == (u / 0x1_0000) % 0x100) by (bit_vector)
        requires
            red == (u >> 16) as u8,
    ;
    assert(green as int == (u / 0x100) % 0x100) by (bit_vector)
        requires
            green == (u >> 8) as u8,
    ;
    assert(blue as int == u % 0x100) by (bit_vector)
        requires
            blue == u as u8,
    ;
    Rgba { alpha, red, green, blue }
}

#[derive(Debug, Clone, Copy, PartialEq, Eq)]
pub enum LogLevel {
    Info,
    Warn,
}

/// One line for the log.
#[derive(Debug, Clone)]
pub struct LogLine {
    pub level: LogLevel,
    pub text: String,
}

/// What applying the dynamic accent color reports: whether it was applied,
/// unavailable, or the bridge failed (with the failure's description).
pub fn apply_dynamic_colors(outcome: Result<bool, String>) -> (line: LogLine)
    ensures
        outcome matches Ok(true) ==> line.level == LogLevel::Info && line.text@
            == "applied Android dynamic accent color"@,
        outcome matches Ok(false) ==> line.level == LogLevel::Info && line.text@
            == "dynamic color unavailable (pre-Android-12, or no such resource)"@,
        outcome matches Err(e) ==> line.level == LogLevel::Warn && line.text@
            == "dynamic color bridge failed: "@ + e@,
{
    match outcome {
        Ok(true) => LogLine {
            level: LogLevel::Info,
            text: owned("applied Android dynamic accent color"),
        },
        Ok(false) => LogLine {
            level: LogLevel::Info,
            text: owned("dynamic color unavailable (pre-Android-12, or no such resource)"),
        },
        Err(e) => {
            let mut text = owned("dynamic color bridge failed: ");
            push_str(&mut text, e.as_str());
            LogLine { level: LogLevel::Warn, text }
        },
    }
}

/// Where the daemon executable is unpacked: the app's native library
/// directory, under the name of a shared library.
pub fn bundled_daemon_path(native_library_dir: &str) -> (p: String)
    ensures
        p@ == join_path(native_library_dir@, "libpocketserver_daemon.so"@),
{
    path_join(native_library_dir, "libpocketserver_daemon.so")
}

/// The state directory handed to the daemon, inside the app's private files
/// directory.
pub fn daemon_state_dir(files_dir: &str) -> (p: String)
    ensures
        p@ == join_path(files_dir@, "pocketserver-state"@),
{
    path_join(files_dir, "pocketserver-state")
}

/// The status the UI shows after trying to start the bundled daemon: its
/// process id, or why it failed.
pub fn ensure_daemon_running(spawned: Result<u32, String>) -> (msg: String)
    ensures
        spawned matches Ok(pid) ==> msg@ == "daemon started (pid "@ + dec(pid as nat) + ")"@,
        spawned matches Err(e) ==> msg@ == "daemon start failed: "@ + e@,
{
    match spawned {
        Ok(pid) => {
            let mut msg = owned("daemon started (pid ");
            push_dec(&mut msg, pid as u64);
            push_str(&mut msg, ")");
            msg
        },
        Err(e) => {
            let mut msg = owned("daemon start failed: ");
            push_str(&mut msg, e.as_str());
            msg
        },
    }
}

} // verus!
