//! What differs between the desktops: how a launcher asks for the first window, where the system
//! font is, how a file is revealed and what goes to the clipboard.
use vstd::prelude::*;

use crate::chord::Platform;
use crate::paths::parent_of;

verus! {

/// How a launcher asks for the first window to be shown.
#[derive(Debug, Clone, Copy, PartialEq, Eq, Structural)]
pub enum LaunchShow {
    Normal,
    Maximized,
    Minimized,
}

/// The flag that says that a launcher set a show command.
pub const USE_SHOW_WINDOW: u32 = 1;

/// What a show command of the Windows shell asks for: 3 shows maximized; 2, 6, 7 and 11 minimized.
pub open spec fn asked_show(command: u16) -> LaunchShow {
    if command == 3 {
        LaunchShow::Maximized
    } else if command == 2 || command == 6 || command == 7 || command == 11 {
        LaunchShow::Minimized
    } else {
        LaunchShow::Normal
    }
}

/// How the launcher asks for the first window to be shown, from the flags and the show command
/// that it started the process with. Only Windows has such a thing.
pub fn launcher_show(platform: Platform, flags: u32, command: u16) -> (r: Option<LaunchShow>)
    ensures
        r == if platform == Platform::Windows && flags % 2 == USE_SHOW_WINDOW {
            Some(asked_show(command))
        } else {
            None
        },
        r == launched(platform, flags, command),
{
    match platform {
        Platform::Windows => {
            if flags % 2 != USE_SHOW_WINDOW {
                return None;
            }
            if command == 3 {
                Some(LaunchShow::Maximized)
            } else if command == 2 || command == 6 || command == 7 || command == 11 {
                Some(LaunchShow::Minimized)
            } else {
                Some(LaunchShow::Normal)
            }
        },
        _ => None,
    }
}

/// The font file that the user interface is drawn with, where the system has a known one.
pub fn ui_font_path(platform: Platform) -> (r: Option<&'static str>)
    ensures
        match platform {
            Platform::Windows => r matches Some(s) && s@ == "C:\\Windows\\Fonts\\segoeui.ttf"@,
            Platform::Mac => r matches Some(s) && s@ == "/System/Library/Fonts/SFNS.ttf"@,
            Platform::Other => r is None,
        },
{
    match platform {
        Platform::Windows => Some("C:\\Windows\\Fonts\\segoeui.ttf"),
        Platform::Mac => Some("/System/Library/Fonts/SFNS.ttf"),
        Platform::Other => None,
    }
}

/// A program and its arguments, as the texts they hold.
pub open spec fn reveal_texts(platform: Platform, image: Seq<char>) -> (Seq<char>, Seq<Seq<char>>) {
    match platform {
        Platform::Windows => ("explorer.exe"@, seq!["/select,\""@ + image + "\""@]),
        Platform::Mac => ("open"@, seq!["-R"@, image]),
        Platform::Other => (
            "xdg-open"@,
            seq![
                match crate::paths::path_parent(image) {
                    Some(dir) => dir,
                    None => image,
                },
            ],
        ),
    }
}

/// The program that shows a file in its folder, with its arguments.
pub fn reveal_command(platform: Platform, image: &str) -> (r: (&'static str, Vec<String>))
    ensures
        r.0@ == reveal_texts(platform, image@).0,
        r.1@.map_values(|s: String| s@) == reveal_texts(platform, image@).1,
{
    let mut args: Vec<String> = Vec::new();
    let program = match platform {
        Platform::Windows => {
            let mut arg = String::new();
            arg.append("/select,\"");
            arg.append(image);
            arg.append("\"");
            assert(arg@ =~= "/select,\""@ + image@ + "\""@);
            args.push(arg);
            "explorer.exe"
        },
        Platform::Mac => {
            args.push("-R".to_owned());
            args.push(image.to_owned());
            "open"
        },
        Platform::Other => {
            args.push(
                match parent_of(image) {
                    Some(dir) => dir,
                    None => image.to_owned(),
                },
            );
            "xdg-open"
        },
    };
    assert(args@.map_values(|s: String| s@) =~= reveal_texts(platform, image@).1);
    (program, args)
}

/// How a file is put on the clipboard.
#[derive(Debug, Clone, Copy, PartialEq, Eq, Structural)]
pub enum CopyPlan {
    /// As a list of files.
    FileList,
    /// As a file reference, or as its path where that is refused.
    FileReference,
    /// As its path.
    PathText,
}

/// How a file is put on the clipboard.
pub fn copy_file_plan(platform: Platform) -> (p: CopyPlan)
    ensures
        p == match platform {
            Platform::Windows => CopyPlan::FileList,
            Platform::Mac => CopyPlan::FileReference,
            Platform::Other => CopyPlan::PathText,
        },
        p == copy_plan(platform),
{
    match platform {
        Platform::Windows => CopyPlan::FileList,
        Platform::Mac => CopyPlan::FileReference,
        Platform::Other => CopyPlan::PathText,
    }
}

/// The bytes of a file list: its header, and each path's units with the closing zeros.
pub fn file_list_bytes(header: usize, units: usize) -> (n: usize)
    requires
        header + 2 * (units + 1) <= usize::MAX,
    ensures
        n == header + 2 * (units + 1),
{
    header + (units + 1) * 2
}

/// A launcher's number for the window: three is maximised, the four that mean minimised are two,
/// six, seven and eleven, and every other is an ordinary window.
pub proof fn law_launcher_numbers(command: u16)
    ensures
        asked_show(command) == LaunchShow::Maximized <==> command == 3,
        asked_show(command) == LaunchShow::Minimized <==> command == 2 || command == 6 || command
            == 7 || command == 11,
        command == 0 || command == 1 || command > 11 ==> asked_show(command) == LaunchShow::Normal,
{
}

/// Showing a file in its folder names the file itself where the desktop can mark it, and its
/// folder, where there is one, where it cannot.
pub proof fn law_reveal_names_the_file(platform: Platform, image: Seq<char>)
    ensures
        ({
            let args = reveal_texts(platform, image).1;
            &&& args.len() == if platform == Platform::Mac {
                2int
            } else {
                1
            }
            &&& platform == Platform::Mac ==> args[1] == image
            &&& platform == Platform::Windows ==> args[0].subrange(9, 9 + image.len() as int)
                == image
            &&& platform == Platform::Other ==> args[0] == image || Some(args[0])
                == crate::paths::path_parent(image)
            &&& platform == Platform::Other && crate::paths::path_parent(image) is Some
                ==> args.last() == crate::paths::path_parent(image)->0
        }),
{
    reveal_strlit("/select,\"");
    reveal_strlit("\"");
    if platform == Platform::Windows {
        assert(reveal_texts(platform, image).1[0].subrange(9, 9 + image.len() as int) =~= image);
    }
}

/// How a file is copied.
pub open spec fn copy_plan(platform: Platform) -> CopyPlan {
    if platform == Platform::Other {
        CopyPlan::PathText
    } else if platform == Platform::Mac {
        CopyPlan::FileReference
    } else {
        CopyPlan::FileList
    }
}

/// How the launcher wants the window shown.
pub open spec fn launched(platform: Platform, flags: u32, command: u16) -> Option<LaunchShow> {
    if platform != Platform::Windows || flags % 2 == 0 {
        None
    } else {
        Some(asked_show(command))
    }
}

/// A file list is for Windows, a reference for a Mac, and plain text for the rest. Only on
/// Windows, and only with the lowest flag set, does a launcher say anything of the window.
pub proof fn law_each_desktop_has_its_way(platform: Platform, flags: u32, command: u16)
    ensures
        copy_plan(platform) == CopyPlan::FileList <==> platform == Platform::Windows,
        copy_plan(platform) == CopyPlan::FileReference <==> platform == Platform::Mac,
        copy_plan(platform) == CopyPlan::PathText <==> platform == Platform::Other,
        launched(platform, flags, command) is Some <==> platform == Platform::Windows && flags % 2
            == 1,
        launched(platform, flags, command) matches Some(s) ==> (s == LaunchShow::Maximized
            <==> command == 3),
{
}

} // verus!
