//! The choices that a user makes between loading a module and running an
//! operation.

use crate::text::ends_with_extension;
use crate::text::has_extension;
use crate::text::same_text;
use vstd::prelude::*;

verus! {

/// What the menu of operations offers.
#[derive(Clone, Copy, Debug, PartialEq, Eq, Structural)]
pub enum MenuChoice {
    /// Do nothing.
    Skip,
    /// Bundle the selected archives into a new archive.
    Zip,
    /// Remove the selected archives.
    Delete,
    /// Write the names of the selected archives to a text file.
    WriteNames,
    /// Move the selected archives to another directory.
    Move,
}

/// The choice that a number of the menu stands for.
pub open spec fn choice_of(number: int) -> Option<MenuChoice> {
    if number == 0 {
        Some(MenuChoice::Skip)
    } else if number == 1 {
        Some(MenuChoice::Zip)
    } else if number == 2 {
        Some(MenuChoice::Delete)
    } else if number == 3 {
        Some(MenuChoice::WriteNames)
    } else if number == 4 {
        Some(MenuChoice::Move)
    } else {
        None
    }
}

/// The choice that a number of the menu stands for; `None` for a number that
/// the menu does not have.
pub fn menu_choice(number: i32) -> (choice: Option<MenuChoice>)
    ensures
        choice == choice_of(number as int),
{
    if number == 0 {
        Some(MenuChoice::Skip)
    } else if number == 1 {
        Some(MenuChoice::Zip)
    } else if number == 2 {
        Some(MenuChoice::Delete)
    } else if number == 3 {
        Some(MenuChoice::WriteNames)
    } else if number == 4 {
        Some(MenuChoice::Move)
    } else {
        None
    }
}

/// Whether an answer confirms the removal of files: it has to be `YES` to the
/// letter.
pub fn confirms_removal(answer: &str) -> (confirmed: bool)
    ensures
        confirmed == (answer@ == "YES"@),
{
    same_text(answer, "YES")
}

/// Whether a file of the modules directory is offered as a module: its
/// extension is `json`.
pub fn is_module_file(name: &str) -> (offered: bool)
    ensures
        offered == has_extension(name@, "json"@),
{
    ends_with_extension(name, "json")
}

/// The module file that a number selects: none of the offered files for 0,
/// the file at that place of the list for a number from 1 on.
pub open spec fn selected_module(number: int, offered: Seq<Seq<char>>) -> Option<Option<Seq<char>>> {
    if number == 0 {
        Some(None)
    } else if 1 <= number <= offered.len() {
        Some(Some(offered[number - 1]))
    } else {
        None
    }
}

/// What a selection of a module file stands for.
pub open spec fn selection_view(selection: Option<Option<String>>) -> Option<Option<Seq<char>>> {
    match selection {
        Some(Some(path)) => Some(Some(path@)),
        Some(None) => Some(None),
        None => None,
    }
}

/// The module file that a number selects among the offered ones: `Some(None)`
/// for 0, which stands for the default module, the file at that place for a
/// number from 1 on, and `None` for a number that selects nothing.
pub fn select_module(number: i32, offered: &Vec<String>) -> (selection: Option<Option<String>>)
    ensures
        selection_view(selection) == selected_module(
            number as int,
            offered@.map_values(|path: String| path@),
        ),
{
    if number == 0 {
        Some(None)
    } else if number >= 1 && (number as usize) <= offered.len() {
        Some(Some(offered[(number - 1) as usize].clone()))
    } else {
        None
    }
}

} // verus!
