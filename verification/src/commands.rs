//! Choosing what the command line asks for, and reading the answers given at
//! prompts and in the interactive menu.
use vstd::prelude::*;

use crate::text::{lowercase, same_text, to_lowercase, trim, trim_text};

verus! {

/// Which options the command line gave, as plain facts.
pub struct CliRequest {
    /// A subcommand (save, use, list, delete, reset, completions) was given.
    pub has_subcommand: bool,
    /// `--completions` was given.
    pub completions: bool,
    /// `--reset` was given.
    pub reset: bool,
    /// `--bookmarks` was given.
    pub bookmarks: bool,
    /// `--delete-bookmark` was given.
    pub delete_bookmark: bool,
    /// `--use` was given.
    pub use_bookmark: bool,
    /// `--save` was given.
    pub save: bool,
    /// `--show` was given.
    pub show: bool,
    /// `--clear` was given.
    pub clear: bool,
    /// `--interactive` was given.
    pub interactive: bool,
    /// How many values `--reverse` was given, if it was given.
    pub reverse_args: Option<usize>,
    /// `--lat` was given.
    pub lat: bool,
    /// `--lon` was given.
    pub lon: bool,
    /// A search query was given.
    pub query: bool,
}

/// What the command line asks for.
#[derive(Clone, Copy, PartialEq, Eq, Debug, Structural)]
pub enum CliAction {
    Subcommand,
    Completions,
    Reset,
    ListBookmarks,
    DeleteBookmark,
    UseBookmark,
    SaveBookmark,
    Show,
    Clear,
    Interactive,
    Reverse,
    /// `--reverse` without exactly two values.
    ReverseArityError,
    Manual,
    /// Only one of `--lat` and `--lon`.
    MissingCoordinate,
    Search,
    /// Nothing given: ask for a location.
    Prompt,
}

/// The action for a command line: the first, in this order, of a subcommand,
/// completions, reset, listing, deleting, using and saving bookmarks, show,
/// clear, interactive mode, reverse geocoding (which needs exactly two values),
/// manual coordinates (which need both), and a search query; else a prompt.
pub open spec fn action_for(r: CliRequest) -> CliAction {
    if r.has_subcommand {
        CliAction::Subcommand
    } else if r.completions {
        CliAction::Completions
    } else if r.reset {
        CliAction::Reset
    } else if r.bookmarks {
        CliAction::ListBookmarks
    } else if r.delete_bookmark {
        CliAction::DeleteBookmark
    } else if r.use_bookmark {
        CliAction::UseBookmark
    } else if r.save {
        CliAction::SaveBookmark
    } else if r.show {
        CliAction::Show
    } else if r.clear {
        CliAction::Clear
    } else if r.interactive {
        CliAction::Interactive
    } else if r.reverse_args is Some {
        if r.reverse_args == Some(2usize) {
            CliAction::Reverse
        } else {
            CliAction::ReverseArityError
        }
    } else if r.lat || r.lon {
        if r.lat && r.lon {
            CliAction::Manual
        } else {
            CliAction::MissingCoordinate
        }
    } else if r.query {
        CliAction::Search
    } else {
        CliAction::Prompt
    }
}

/// Chooses what the command line asks for.
pub fn choose_action(r: &CliRequest) -> (a: CliAction)
    ensures
        a == action_for(*r),
{
    if r.has_subcommand {
        CliAction::Subcommand
    } else if r.completions {
        CliAction::Completions
    } else if r.reset {
        CliAction::Reset
    } else if r.bookmarks {
        CliAction::ListBookmarks
    } else if r.delete_bookmark {
        CliAction::DeleteBookmark
    } else if r.use_bookmark {
        CliAction::UseBookmark
    } else if r.save {
        CliAction::SaveBookmark
    } else if r.show {
        CliAction::Show
    } else if r.clear {
        CliAction::Clear
    } else if r.interactive {
        CliAction::Interactive
    } else if let Some(n) = r.reverse_args {
        if n == 2 {
            CliAction::Reverse
        } else {
            CliAction::ReverseArityError
        }
    } else if r.lat || r.lon {
        if r.lat && r.lon {
            CliAction::Manual
        } else {
            CliAction::MissingCoordinate
        }
    } else if r.query {
        CliAction::Search
    } else {
        CliAction::Prompt
    }
}

/// Whether an answer to a yes/no prompt accepts: empty, `y` or `yes`, in
/// any case and with surrounding white space.
pub open spec fn accepts(answer: Seq<char>) -> bool {
    let a = lowercase(trim(answer));
    a.len() == 0 || a == "y"@ || a == "yes"@
}

/// Reads the answer to a yes/no prompt whose default is yes.
pub fn is_affirmative(answer: &str) -> (r: bool)
    ensures
        r == accepts(answer@),
{
    let t = trim_text(answer);
    let a = to_lowercase(t.as_str());
    a.as_str().is_empty() || same_text(a.as_str(), "y") || same_text(a.as_str(), "yes")
}

/// An entry of the interactive menu.
#[derive(Clone, Copy, PartialEq, Eq, Debug, Structural)]
pub enum MenuChoice {
    Search,
    Coordinates,
    Show,
    Clear,
    Bookmarks,
    Reset,
    Exit,
    Invalid,
}

/// The menu entry that a (trimmed) answer selects: `1` to `7`, or `q` and
/// `exit` for leaving.
pub open spec fn menu_choice_for(input: Seq<char>) -> MenuChoice {
    if input == "1"@ {
        MenuChoice::Search
    } else if input == "2"@ {
        MenuChoice::Coordinates
    } else if input == "3"@ {
        MenuChoice::Show
    } else if input == "4"@ {
        MenuChoice::Clear
    } else if input == "5"@ {
        MenuChoice::Bookmarks
    } else if input == "6"@ {
        MenuChoice::Reset
    } else if input == "7"@ || input == "q"@ || input == "exit"@ {
        MenuChoice::Exit
    } else {
        MenuChoice::Invalid
    }
}

/// Reads a menu answer.
pub fn menu_choice(input: &str) -> (r: MenuChoice)
    ensures
        r == menu_choice_for(input@),
{
    if same_text(input, "1") {
        MenuChoice::Search
    } else if same_text(input, "2") {
        MenuChoice::Coordinates
    } else if same_text(input, "3") {
        MenuChoice::Show
    } else if same_text(input, "4") {
        MenuChoice::Clear
    } else if same_text(input, "5") {
        MenuChoice::Bookmarks
    } else if same_text(input, "6") {
        MenuChoice::Reset
    } else if same_text(input, "7") || same_text(input, "q") || same_text(input, "exit") {
        MenuChoice::Exit
    } else {
        MenuChoice::Invalid
    }
}

/// An action of the bookmark menu.
#[derive(Clone, Copy, PartialEq, Eq, Debug, Structural)]
pub enum BookmarkAction {
    List,
    Use,
    Save,
    Delete,
}

/// The bookmark action that an answer selects, in any case: `u`/`use`,
/// `s`/`save`, `d`/`delete`; anything else lists.
pub open spec fn bookmark_action_for(input: Seq<char>) -> BookmarkAction {
    let a = lowercase(input);
    if a == "u"@ || a == "use"@ {
        BookmarkAction::Use
    } else if a == "s"@ || a == "save"@ {
        BookmarkAction::Save
    } else if a == "d"@ || a == "delete"@ {
        BookmarkAction::Delete
    } else {
        BookmarkAction::List
    }
}

/// Reads a bookmark menu answer.
pub fn bookmark_action(input: &str) -> (r: BookmarkAction)
    ensures
        r == bookmark_action_for(input@),
{
    let a = to_lowercase(input);
    let s = a.as_str();
    if same_text(s, "u") || same_text(s, "use") {
        BookmarkAction::Use
    } else if same_text(s, "s") || same_text(s, "save") {
        BookmarkAction::Save
    } else if same_text(s, "d") || same_text(s, "delete") {
        BookmarkAction::Delete
    } else {
        BookmarkAction::List
    }
}

/// A subcommand given on the command line takes precedence over every flag.
pub proof fn law_subcommand_first(r: CliRequest)
    requires
        r.has_subcommand,
    ensures
        action_for(r) == CliAction::Subcommand,
{
}

/// Manual coordinates need both `--lat` and `--lon`: given one without the
/// other (and none of the options that come first), the command is refused.
pub proof fn law_coordinates_come_in_pairs(r: CliRequest)
    requires
        !r.has_subcommand && !r.completions && !r.reset && !r.bookmarks && !r.delete_bookmark
            && !r.use_bookmark && !r.save && !r.show && !r.clear && !r.interactive
            && r.reverse_args is None,
        r.lat != r.lon,
    ensures
        action_for(r) == CliAction::MissingCoordinate,
{
}

/// `--save` saves a bookmark whenever no subcommand and none of
/// `--completions`, `--reset`, `--bookmarks`, `--delete-bookmark` and `--use`
/// is given, whatever else the command line holds: a search query given with
/// it is what gets saved, not a location to set.
pub proof fn law_save_takes_the_query(r: CliRequest)
    requires
        r.save,
        !r.has_subcommand,
        !r.completions,
        !r.reset,
        !r.bookmarks,
        !r.delete_bookmark,
        !r.use_bookmark,
    ensures
        action_for(r) == CliAction::SaveBookmark,
{
}

/// A search runs only for a query given with none of the options that act
/// otherwise: no subcommand, completions, reset, bookmark option, show,
/// clear, interactive mode, reverse geocoding or coordinates.
pub proof fn law_search_only_for_a_bare_query(r: CliRequest)
    ensures
        action_for(r) == CliAction::Search <==> (r.query && !r.has_subcommand && !r.completions
            && !r.reset && !r.bookmarks && !r.delete_bookmark && !r.use_bookmark && !r.save
            && !r.show && !r.clear && !r.interactive && r.reverse_args is None && !r.lat && !r.lon),
{
}

/// Each option acts only when no option that comes before it in the order
/// subcommand, completions, reset, bookmarks, delete-bookmark, use, save,
/// show, clear, interactive is given.
pub proof fn law_option_order(r: CliRequest)
    ensures
        action_for(r) == CliAction::Completions <==> (!r.has_subcommand && r.completions),
        action_for(r) == CliAction::Reset <==> (!r.has_subcommand && !r.completions && r.reset),
        action_for(r) == CliAction::ListBookmarks <==> (!r.has_subcommand && !r.completions
            && !r.reset && r.bookmarks),
        action_for(r) == CliAction::DeleteBookmark <==> (!r.has_subcommand && !r.completions
            && !r.reset && !r.bookmarks && r.delete_bookmark),
        action_for(r) == CliAction::UseBookmark <==> (!r.has_subcommand && !r.completions
            && !r.reset && !r.bookmarks && !r.delete_bookmark && r.use_bookmark),
        action_for(r) == CliAction::SaveBookmark <==> (!r.has_subcommand && !r.completions
            && !r.reset && !r.bookmarks && !r.delete_bookmark && !r.use_bookmark && r.save),
        action_for(r) == CliAction::Show <==> (!r.has_subcommand && !r.completions && !r.reset
            && !r.bookmarks && !r.delete_bookmark && !r.use_bookmark && !r.save && r.show),
{
}

} // verus!
