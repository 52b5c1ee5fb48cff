//! The menu bar of a Mac: what it holds, which command an item stands for, and the accelerator that
//! a key binding gives it.
use vstd::prelude::*;
use winit::keyboard::KeyCode;

use crate::chord::KeyChord;
use crate::keybinds::{KeyAction, Keybinds};
use crate::text::same_text;

verus! {

/// An entry of the menu bar.
#[derive(Debug, Clone, Copy, PartialEq, Eq, Structural)]
pub enum MenuItem {
    About,
    Separator,
    Services,
    Hide,
    HideOthers,
    ShowAll,
    Quit,
    Open,
    CloseImage,
    Minimize,
    Maximize,
}

/// A menu of the menu bar.
#[derive(Debug, Clone, Copy, PartialEq, Eq, Structural)]
pub enum MenuKind {
    Application,
    File,
    Window,
}

/// What a menu holds.
pub open spec fn menu_items(kind: MenuKind) -> Seq<MenuItem> {
    match kind {
        MenuKind::Application => seq![
            MenuItem::About,
            MenuItem::Separator,
            MenuItem::Services,
            MenuItem::Separator,
            MenuItem::Hide,
            MenuItem::HideOthers,
            MenuItem::ShowAll,
            MenuItem::Separator,
            MenuItem::Quit,
        ],
        MenuKind::File => seq![MenuItem::Open, MenuItem::CloseImage],
        MenuKind::Window => seq![MenuItem::Minimize, MenuItem::Maximize],
    }
}

/// What a menu holds.
pub fn items(kind: MenuKind) -> (v: Vec<MenuItem>)
    ensures
        v@ == menu_items(kind),
{
    let v = match kind {
        MenuKind::Application => vec![
            MenuItem::About,
            MenuItem::Separator,
            MenuItem::Services,
            MenuItem::Separator,
            MenuItem::Hide,
            MenuItem::HideOthers,
            MenuItem::ShowAll,
            MenuItem::Separator,
            MenuItem::Quit,
        ],
        MenuKind::File => vec![MenuItem::Open, MenuItem::CloseImage],
        MenuKind::Window => vec![MenuItem::Minimize, MenuItem::Maximize],
    };
    assert(v@ =~= menu_items(kind));
    v
}

/// The menu that replaces the system's own still carries Quit.
pub proof fn law_menu_can_quit()
    ensures
        menu_items(MenuKind::Application).contains(MenuItem::Quit),
{
    assert(menu_items(MenuKind::Application)[8] == MenuItem::Quit);
}

/// The text of an item that does not have the system's own.
pub open spec fn item_text(item: MenuItem, product: Seq<char>) -> Option<Seq<char>> {
    match item {
        MenuItem::About => Some("About "@ + product),
        MenuItem::Hide => Some("Hide "@ + product),
        MenuItem::Quit => Some("Quit "@ + product),
        MenuItem::Open => Some("Open\u{2026}"@),
        MenuItem::CloseImage => Some("Close Image"@),
        _ => None,
    }
}

/// The text of an item that does not have the system's own.
pub fn text_of_item(item: MenuItem, product: &str) -> (r: Option<String>)
    ensures
        match item_text(item, product@) {
            Some(t) => r matches Some(s) && s@ == t,
            None => r is None,
        },
{
    let mut s = String::new();
    match item {
        MenuItem::About => {
            s.append("About ");
            s.append(product);
        },
        MenuItem::Hide => {
            s.append("Hide ");
            s.append(product);
        },
        MenuItem::Quit => {
            s.append("Quit ");
            s.append(product);
        },
        MenuItem::Open => s.append("Open\u{2026}"),
        MenuItem::CloseImage => s.append("Close Image"),
        _ => {
            return None;
        },
    }
    assert(Some(s@) =~= item_text(item, product@)) by {
        match item_text(item, product@) {
            Some(t) => assert(s@ =~= t),
            None => {},
        }
    }
    Some(s)
}

/// The command that an item of this identifier stands for.
pub fn action_for(id: &str) -> (r: Option<KeyAction>)
    ensures
        r == if id@ == "fire.open"@ {
            Some(KeyAction::OpenFile)
        } else if id@ == "fire.close"@ {
            Some(KeyAction::CloseImage)
        } else {
            None
        },
        r == menu_action(id@),
{
    if same_text(id, "fire.open") {
        Some(KeyAction::OpenFile)
    } else if same_text(id, "fire.close") {
        Some(KeyAction::CloseImage)
    } else {
        None
    }
}

/// Whether a key is one of the letters.
pub open spec fn is_letter(key: KeyCode) -> bool {
    match key {
        KeyCode::KeyA | KeyCode::KeyB | KeyCode::KeyC | KeyCode::KeyD | KeyCode::KeyE
        | KeyCode::KeyF | KeyCode::KeyG | KeyCode::KeyH | KeyCode::KeyI | KeyCode::KeyJ
        | KeyCode::KeyK | KeyCode::KeyL | KeyCode::KeyM | KeyCode::KeyN | KeyCode::KeyO
        | KeyCode::KeyP | KeyCode::KeyQ | KeyCode::KeyR | KeyCode::KeyS | KeyCode::KeyT
        | KeyCode::KeyU | KeyCode::KeyV | KeyCode::KeyW | KeyCode::KeyX | KeyCode::KeyY
        | KeyCode::KeyZ => true,
        _ => false,
    }
}

fn letter(key: KeyCode) -> (r: bool)
    ensures
        r == is_letter(key),
{
    match key {
        KeyCode::KeyA | KeyCode::KeyB | KeyCode::KeyC | KeyCode::KeyD | KeyCode::KeyE
        | KeyCode::KeyF | KeyCode::KeyG | KeyCode::KeyH | KeyCode::KeyI | KeyCode::KeyJ
        | KeyCode::KeyK | KeyCode::KeyL | KeyCode::KeyM | KeyCode::KeyN | KeyCode::KeyO
        | KeyCode::KeyP | KeyCode::KeyQ | KeyCode::KeyR | KeyCode::KeyS | KeyCode::KeyT
        | KeyCode::KeyU | KeyCode::KeyV | KeyCode::KeyW | KeyCode::KeyX | KeyCode::KeyY
        | KeyCode::KeyZ => true,
        _ => false,
    }
}

/// An accelerator of the menu bar.
#[derive(Debug, Clone, Copy)]
pub struct Accelerator {
    pub command: bool,
    pub shift: bool,
    pub option: bool,
    pub key: KeyCode,
}

/// The accelerator of a chord: only letters have one.
pub open spec fn accelerator(chord: KeyChord) -> Option<Accelerator> {
    if is_letter(chord.key) {
        Some(
            Accelerator {
                command: chord.primary,
                shift: chord.shift,
                option: chord.alt,
                key: chord.key,
            },
        )
    } else {
        None
    }
}

/// The accelerator of a command: that of its first chord.
pub fn accelerator_for(binds: &Keybinds, action: KeyAction) -> (r: Option<Accelerator>)
    ensures
        r == if (binds.table())(action).len() == 0 {
            None
        } else {
            accelerator((binds.table())(action)[0])
        },
{
    let chords = binds.chords(action);
    if chords.len() == 0 {
        return None;
    }
    let chord = chords[0];
    if !letter(chord.key) {
        return None;
    }
    Some(
        Accelerator {
            command: chord.primary,
            shift: chord.shift,
            option: chord.alt,
            key: chord.key,
        },
    )
}

/// Where each item stands: the program's own menu begins with the note about it and ends with
/// leaving it; files are opened before they are closed; a menu never begins or ends with a line.
pub proof fn law_menu_order(kind: MenuKind)
    ensures
        menu_items(kind).len() > 0,
        menu_items(kind)[0] != MenuItem::Separator,
        menu_items(kind).last() != MenuItem::Separator,
        menu_items(MenuKind::Application)[0] == MenuItem::About,
        menu_items(MenuKind::Application).last() == MenuItem::Quit,
        menu_items(MenuKind::File)[0] == MenuItem::Open,
        menu_items(MenuKind::File).last() == MenuItem::CloseImage,
        menu_items(MenuKind::Window)[0] == MenuItem::Minimize,
        menu_items(MenuKind::Window).last() == MenuItem::Maximize,
        !menu_items(MenuKind::File).contains(MenuItem::Quit),
        forall|i: int|
            0 <= i < menu_items(kind).len() - 1 ==> #[trigger] menu_items(kind)[i]
                != MenuItem::Separator || menu_items(kind)[i + 1] != MenuItem::Separator,
{
}

/// The items about the program carry its name at their end; those that the system words have no
/// text of their own.
pub proof fn law_items_carry_the_name(item: MenuItem, product: Seq<char>)
    ensures
        ({
            let t = item_text(item, product);
            &&& t is Some <==> item == MenuItem::About || item == MenuItem::Hide || item
                == MenuItem::Quit || item == MenuItem::Open || item == MenuItem::CloseImage
            &&& item == MenuItem::About ==> t->0.skip(6) == product && t->0[0] == 'A'
            &&& item == MenuItem::Hide ==> t->0.skip(5) == product && t->0[0] == 'H'
            &&& item == MenuItem::Quit ==> t->0.skip(5) == product && t->0[0] == 'Q'
            &&& item == MenuItem::Open ==> t->0[0] == 'O'
            &&& item == MenuItem::CloseImage ==> t->0[0] == 'C'
        }),
{
    reveal_strlit("About ");
    reveal_strlit("Hide ");
    reveal_strlit("Quit ");
    reveal_strlit("Open\u{2026}");
    reveal_strlit("Close Image");
    let t = item_text(item, product);
    assert(item == MenuItem::About ==> t->0.skip(6) =~= product);
    assert(item == MenuItem::Hide ==> t->0.skip(5) =~= product);
    assert(item == MenuItem::Quit ==> t->0.skip(5) =~= product);
}

/// A menu shows the shortcut of a letter as it is bound: the primary modifier as Command, the
/// others as themselves.
pub proof fn law_accelerators_keep_their_modifiers(chord: KeyChord)
    ensures
        accelerator(chord) is Some <==> is_letter(chord.key),
        accelerator(chord) matches Some(a) ==> a.key == chord.key && a.command == chord.primary
            && a.shift == chord.shift && a.option == chord.alt,
        is_letter(KeyCode::KeyA) && is_letter(KeyCode::KeyO) && is_letter(KeyCode::KeyW)
            && is_letter(KeyCode::KeyZ),
        !is_letter(KeyCode::Digit0) && !is_letter(KeyCode::Escape) && !is_letter(KeyCode::F1)
            && !is_letter(KeyCode::ArrowLeft) && !is_letter(KeyCode::Space),
{
}

/// The action of a menu entry's identifier.
pub open spec fn menu_action(id: Seq<char>) -> Option<KeyAction> {
    if id == "fire.close"@ && id != "fire.open"@ {
        Some(KeyAction::CloseImage)
    } else if id == "fire.open"@ {
        Some(KeyAction::OpenFile)
    } else {
        None
    }
}

/// The identifier says what its entry does: that of opening ends in an n and that of closing in
/// an e, and the menu does nothing else.
pub proof fn law_menu_identifiers(id: Seq<char>)
    ensures
        menu_action(id) is Some <==> id == "fire.open"@ || id == "fire.close"@,
        menu_action(id) == Some(KeyAction::OpenFile) ==> id.last() == 'n' && id.len() == 9,
        menu_action(id) == Some(KeyAction::CloseImage) ==> id.last() == 'e' && id.len() == 10,
        menu_action(id) matches Some(a) ==> a == KeyAction::OpenFile || a == KeyAction::CloseImage,
{
    reveal_strlit("fire.open");
    reveal_strlit("fire.close");
}

} // verus!
