//! The decisions of the desktop shell around the catalog: where the window
//! goes, what a tray entry does, which file events reload themes, where
//! plug-ins live, what the outcome of a command means, and how a timing is
//! reported.

use vstd::prelude::*;
use vstd::string::{StrSliceExecFns, StringExecFns};
use crate::paths::{extension_dot, extension_is, extension_of, join_path, joined, same_text};

verus! {

/// What running a program gave.
#[derive(Debug)]
pub struct CommandOutput {
    pub success: bool,
    pub code: Option<i32>,
    pub stdout: String,
    pub stderr: String,
}

/// The `{:?}` form of an exit code, as `Option<i32>` gives it.
pub uninterp spec fn exit_code_text(code: Option<i32>) -> Seq<char>;

/// `format!` of an exit code in `{:?}` form, which depends on the code
/// alone.
#[verifier::external_body]
fn format_exit_code(code: Option<i32>) -> (r: String)
    ensures
        r@ == exit_code_text(code),
{
    format!("{:?}", code)
}

/// The outcome of a command for a caller that wants no output: nothing
/// where it succeeded, else a message that names the program, its exit code
/// and what it wrote to standard error.
pub fn execute_command_simple(program: &str, output: &CommandOutput) -> (r: Result<(), String>)
    ensures
        r is Ok <==> output.success,
        r matches Err(message) ==> message@ == "Command '"@ + program@ + "' failed with exit code "@
            + exit_code_text(output.code) + ": "@ + output.stderr@,
{
    if output.success {
        Ok(())
    } else {
        let code = format_exit_code(output.code);
        Err(
            String::from_str("Command '").concat(program).concat("' failed with exit code ").concat(
                code.as_str(),
            ).concat(": ").concat(output.stderr.as_str()),
        )
    }
}

/// The character of a decimal digit.
pub open spec fn digit_char(d: nat) -> char {
    if d == 0 {
        '0'
    } else if d == 1 {
        '1'
    } else if d == 2 {
        '2'
    } else if d == 3 {
        '3'
    } else if d == 4 {
        '4'
    } else if d == 5 {
        '5'
    } else if d == 6 {
        '6'
    } else if d == 7 {
        '7'
    } else if d == 8 {
        '8'
    } else {
        '9'
    }
}

/// A number written in decimal, without leading zeros.
pub open spec fn decimal_text(n: nat) -> Seq<char>
    decreases n,
{
    if n < 10 {
        seq![digit_char(n)]
    } else {
        decimal_text(n / 10) + seq![digit_char(n % 10)]
    }
}

/// The text of one decimal digit.
fn digit_str(d: u8) -> (r: &'static str)
    requires
        d < 10,
    ensures
        r@ == seq![digit_char(d as nat)],
{
    proof {
        reveal_strlit("0");
        reveal_strlit("1");
        reveal_strlit("2");
        reveal_strlit("3");
        reveal_strlit("4");
        reveal_strlit("5");
        reveal_strlit("6");
        reveal_strlit("7");
        reveal_strlit("8");
        reveal_strlit("9");
    }
    let r = if d == 0 {
        "0"
    } else if d == 1 {
        "1"
    } else if d == 2 {
        "2"
    } else if d == 3 {
        "3"
    } else if d == 4 {
        "4"
    } else if d == 5 {
        "5"
    } else if d == 6 {
        "6"
    } else if d == 7 {
        "7"
    } else if d == 8 {
        "8"
    } else {
        "9"
    };
    assert(r@ =~= seq![digit_char(d as nat)]);
    r
}

/// Writes a number in decimal.
pub fn decimal(n: u128) -> (r: String)
    ensures
        r@ == decimal_text(n as nat),
    decreases n,
{
    if n < 10 {
        String::from_str(digit_str(n as u8))
    } else {
        decimal(n / 10).concat(digit_str((n % 10) as u8))
    }
}

/// One line of a timing report: the number of the run, and how many
/// milliseconds hiding and showing the window took.
pub fn performance_line(run: u32, hide_ms: u128, show_ms: u128) -> (r: String)
    ensures
        r@ == "Test "@ + decimal_text(run as nat) + ": Hide: "@ + decimal_text(hide_ms as nat)
            + "ms, Show: "@ + decimal_text(show_ms as nat) + "ms"@,
{
    let run_text = decimal(run as u128);
    let hide_text = decimal(hide_ms);
    let show_text = decimal(show_ms);
    String::from_str("Test ").concat(run_text.as_str()).concat(": Hide: ").concat(hide_text.as_str()).concat(
        "ms, Show: ",
    ).concat(show_text.as_str()).concat("ms")
}

/// The quotient of `a` by a positive `b`, rounded towards zero.
pub open spec fn quotient_towards_zero(a: int, b: int) -> int {
    if a >= 0 {
        a / b
    } else {
        -((-a) / b)
    }
}

/// The `parts`-th part of what `outer` has more than `inner`, towards zero.
fn gap_fraction(outer: u32, inner: u32, parts: u32) -> (r: i32)
    requires
        2 <= parts,
    ensures
        r == quotient_towards_zero(outer - inner, parts as int),
{
    if outer >= inner {
        let q: u32 = (outer - inner) / parts;
        assert(q <= i32::MAX) by (nonlinear_arith)
            requires
                q == (outer - inner) / (parts as int),
                0 <= outer - inner <= u32::MAX,
                2 <= parts,
        ;
        q as i32
    } else {
        let q: u32 = (inner - outer) / parts;
        assert(q <= i32::MAX) by (nonlinear_arith)
            requires
                q == (inner - outer) / (parts as int),
                0 <= inner - outer <= u32::MAX,
                2 <= parts,
        ;
        -(q as i32)
    }
}

/// Where a window of the given size goes on a monitor of the given size,
/// sizes being width then height: centred from left to right, and with a
/// third of the free height above it.
pub fn centered_position(monitor: (u32, u32), window: (u32, u32)) -> (r: (i32, i32))
    ensures
        r.0 == quotient_towards_zero(monitor.0 - window.0, 2),
        r.1 == quotient_towards_zero(monitor.1 - window.1, 3),
{
    (gap_fraction(monitor.0, window.0, 2), gap_fraction(monitor.1, window.1, 3))
}

/// What is done to the window.
#[derive(Debug, Clone, Copy, PartialEq, Eq, Structural)]
pub enum WindowAction {
    Hide,
    ShowCentered,
}

/// What toggling does: a visible window is hidden, a hidden one is shown
/// centred.
pub fn toggle_window_visibility(visible: bool) -> (r: WindowAction)
    ensures
        r == (if visible {
            WindowAction::Hide
        } else {
            WindowAction::ShowCentered
        }),
{
    if visible {
        WindowAction::Hide
    } else {
        WindowAction::ShowCentered
    }
}

/// What an entry of the tray menu asks for.
#[derive(Debug, Clone, Copy, PartialEq, Eq, Structural)]
pub enum TrayAction {
    ToggleWindow,
    Quit,
    Nothing,
}

/// The action of the tray entry with the given identifier.
pub fn handle_tray_menu_event(menu_id: &str) -> (r: TrayAction)
    ensures
        r == (if menu_id@ == "show_hide"@ {
            TrayAction::ToggleWindow
        } else if menu_id@ == "quit"@ {
            TrayAction::Quit
        } else {
            TrayAction::Nothing
        }),
{
    if same_text(menu_id, "show_hide") {
        TrayAction::ToggleWindow
    } else if same_text(menu_id, "quit") {
        TrayAction::Quit
    } else {
        TrayAction::Nothing
    }
}

/// The kind of a file event, as far as themes care.
#[derive(Debug, Clone, Copy, PartialEq, Eq, Structural)]
pub enum WatchKind {
    Create,
    Modify,
    Other,
}

/// A file event: its kind and the paths it is about.
#[derive(Debug)]
pub struct WatchEvent {
    pub kind: WatchKind,
    pub paths: Vec<String>,
}

/// The text is `json` in any mix of upper and lower case.
pub open spec fn is_json_word(text: Seq<char>) -> bool {
    &&& text.len() == 4
    &&& (text[0] == 'j' || text[0] == 'J')
    &&& (text[1] == 's' || text[1] == 'S')
    &&& (text[2] == 'o' || text[2] == 'O')
    &&& (text[3] == 'n' || text[3] == 'N')
}

/// The path names a theme file whatever the case of its extension.
pub open spec fn is_json_path(path: Seq<char>) -> bool {
    extension_of(path) matches Some(extension) && is_json_word(extension)
}

/// Whether the path has the extension `json`, in any mix of case.
pub fn has_json_extension(path: &str) -> (r: bool)
    ensures
        r == is_json_path(path@),
{
    match extension_dot(path) {
        Some(i) => {
            let n = path.unicode_len();
            if n - i != 5 {
                return false;
            }
            let c0 = path.get_char(i + 1);
            let c1 = path.get_char(i + 2);
            let c2 = path.get_char(i + 3);
            let c3 = path.get_char(i + 4);
            (c0 == 'j' || c0 == 'J') && (c1 == 's' || c1 == 'S') && (c2 == 'o' || c2 == 'O') && (c3 == 'n' || c3
                == 'N')
        },
        None => false,
    }
}

/// Whether a file event calls for the themes to be loaded again: a file was
/// created or modified, and one of the paths is a theme file.
pub fn should_reload_theme(event: &WatchEvent) -> (r: bool)
    ensures
        r == ((event.kind == WatchKind::Create || event.kind == WatchKind::Modify) && exists|i: int|
            0 <= i < event.paths.len() && is_json_path(#[trigger] event.paths[i]@)),
{
    match event.kind {
        WatchKind::Create | WatchKind::Modify => {},
        WatchKind::Other => {
            return false;
        },
    }
    let mut i: usize = 0;
    while i < event.paths.len()
        invariant
            i <= event.paths.len(),
            event.kind == WatchKind::Create || event.kind == WatchKind::Modify,
            forall|j: int| 0 <= j < i ==> !is_json_path(#[trigger] event.paths[j]@),
        decreases event.paths.len() - i,
    {
        if has_json_extension(event.paths[i].as_str()) {
            assert(is_json_path(event.paths[i as int]@));
            return true;
        }
        i += 1;
    }
    false
}

/// Whether a file of the themes directory is read as a theme: its extension
/// is `json`, in lower case.
pub fn is_theme_file(path: &str) -> (r: bool)
    ensures
        r == (extension_of(path@) == Some("json"@)),
{
    extension_is(path, "json")
}

/// Where plug-ins are kept, under the application's data directory.
pub fn get_plugin_base_path(app_data_dir: &str) -> (r: String)
    ensures
        r@ == joined(app_data_dir@, "plugins"@),
{
    join_path(app_data_dir, "plugins")
}

/// The three plug-in directories under the application's data directory:
/// bundled, user and development, in this order.
pub fn get_plugin_directories(app_data_dir: &str) -> (r: Vec<String>)
    ensures
        r.len() == 3,
        r[0]@ == joined(joined(app_data_dir@, "plugins"@), "bundled"@),
        r[1]@ == joined(joined(app_data_dir@, "plugins"@), "user"@),
        r[2]@ == joined(joined(app_data_dir@, "plugins"@), "development"@),
{
    let base = get_plugin_base_path(app_data_dir);
    let mut directories: Vec<String> = Vec::new();
    directories.push(join_path(base.as_str(), "bundled"));
    directories.push(join_path(base.as_str(), "user"));
    directories.push(join_path(base.as_str(), "development"));
    directories
}

/// The memory of this process and of the machine in units of 1024 of the
/// units given, rounded down.
pub fn get_memory_usage(process_memory: u64, total_memory: u64) -> (r: (u64, u64))
    ensures
        r.0 == process_memory / 1024,
        r.1 == total_memory / 1024,
{
    (process_memory / 1024, total_memory / 1024)
}

} // verus!
