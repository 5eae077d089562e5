//! How the tool was installed, and how to upgrade it.

use super::text;
use vstd::prelude::*;

verus! {

/// How the tool was installed, detected from the path of its binary.
#[derive(Debug, Clone, Copy, PartialEq, Eq, Structural)]
pub enum InstallMethod {
    Cargo,
    Brew,
    Scoop,
    Unknown,
}

/// The installer whose directories the path of the binary runs through.
pub open spec fn method_of(path: Seq<char>) -> InstallMethod {
    if text::occurs(path, ".cargo/bin"@) || text::occurs(path, ".cargo\\bin"@) {
        InstallMethod::Cargo
    } else if text::occurs(path, "/homebrew/"@) || text::occurs(path, "/Cellar/"@) {
        InstallMethod::Brew
    } else if text::occurs(path, "\\scoop\\"@) || text::occurs(path, "/scoop/"@) {
        InstallMethod::Scoop
    } else {
        InstallMethod::Unknown
    }
}

/// Detects how the tool was installed by inspecting the path of the running
/// binary, which is absent where the system does not tell it.
pub fn detect_install_method(exe: Option<&str>) -> (r: InstallMethod)
    ensures
        r == match exe {
            Some(path) => method_of(path@),
            None => InstallMethod::Unknown,
        },
{
    let path = match exe {
        Some(path) => path,
        None => return InstallMethod::Unknown,
    };
    if text::has_text(path, ".cargo/bin") || text::has_text(path, ".cargo\\bin") {
        InstallMethod::Cargo
    } else if text::has_text(path, "/homebrew/") || text::has_text(path, "/Cellar/") {
        InstallMethod::Brew
    } else if text::has_text(path, "\\scoop\\") || text::has_text(path, "/scoop/") {
        InstallMethod::Scoop
    } else {
        InstallMethod::Unknown
    }
}

/// Returns the upgrade command string.
///
/// Always suggests `tokensave upgrade`, which handles all install methods and
/// channels by itself.
pub fn upgrade_command(_method: &InstallMethod) -> (r: &'static str)
    ensures
        r@ == "tokensave upgrade"@,
{
    "tokensave upgrade"
}

/// A path that runs through cargo's directory is cargo's, whatever else it runs
/// through; of the others, one through a directory of Homebrew is Homebrew's; of
/// the rest, one through scoop's is scoop's.
pub proof fn law_directories_tell_the_installer(front: Seq<char>, back: Seq<char>)
    ensures
        method_of(front + ".cargo/bin"@ + back) == InstallMethod::Cargo,
        method_of(front + ".cargo\\bin"@ + back) == InstallMethod::Cargo,
        ({
            let path = front + "/homebrew/"@ + back;
            !text::occurs(path, ".cargo/bin"@) && !text::occurs(path, ".cargo\\bin"@) ==> method_of(path)
                == InstallMethod::Brew
        }),
        ({
            let path = front + "/Cellar/"@ + back;
            !text::occurs(path, ".cargo/bin"@) && !text::occurs(path, ".cargo\\bin"@) ==> method_of(path)
                == InstallMethod::Brew
        }),
        ({
            let path = front + "/scoop/"@ + back;
            !text::occurs(path, ".cargo/bin"@) && !text::occurs(path, ".cargo\\bin"@) && !text::occurs(
                path,
                "/homebrew/"@,
            ) && !text::occurs(path, "/Cellar/"@) ==> method_of(path) == InstallMethod::Scoop
        }),
        ({
            let path = front + "\\scoop\\"@ + back;
            !text::occurs(path, ".cargo/bin"@) && !text::occurs(path, ".cargo\\bin"@) && !text::occurs(
                path,
                "/homebrew/"@,
            ) && !text::occurs(path, "/Cellar/"@) ==> method_of(path) == InstallMethod::Scoop
        }),
{
    text::law_what_is_put_in_occurs(front, ".cargo/bin"@, back);
    text::law_what_is_put_in_occurs(front, ".cargo\\bin"@, back);
    text::law_what_is_put_in_occurs(front, "/homebrew/"@, back);
    text::law_what_is_put_in_occurs(front, "/Cellar/"@, back);
    text::law_what_is_put_in_occurs(front, "/scoop/"@, back);
    text::law_what_is_put_in_occurs(front, "\\scoop\\"@, back);
}

/// An installer is named only where the path runs through one of its directories.
pub proof fn law_no_installer_without_its_directory(path: Seq<char>)
    ensures
        method_of(path) == InstallMethod::Cargo ==> text::occurs(path, ".cargo/bin"@) || text::occurs(
            path,
            ".cargo\\bin"@,
        ),
        method_of(path) == InstallMethod::Brew ==> text::occurs(path, "/homebrew/"@) || text::occurs(
            path,
            "/Cellar/"@,
        ),
        method_of(path) == InstallMethod::Scoop ==> text::occurs(path, "\\scoop\\"@) || text::occurs(
            path,
            "/scoop/"@,
        ),
{
}

} // verus!
