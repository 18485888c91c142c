//! How the parameters are shown: one list entry and one description each.

use crate::parsing::{ArgumentView, CLIArgument, CLIFlag, FlagView};
use crate::text::{strip_leading, uppercase};
use vstd::prelude::*;

verus! {

/// What stands between the name of a parameter and what is shown of it.
pub const SEPARATOR: &'static str = ": ";

/// The box of a flag that is set.
pub const CHECKED: &'static str = "[x] ";

/// The box of a flag that is not set.
pub const UNCHECKED: &'static str = "[ ] ";

/// The list entry of a value-bearing parameter: its name and its value.
pub open spec fn argument_entry(argument: ArgumentView) -> Seq<char> {
    argument.name + SEPARATOR@ + argument.value
}

/// The description shown for a value-bearing parameter, where it has one.
pub open spec fn argument_description(argument: ArgumentView) -> Option<Seq<char>> {
    match argument.description {
        Some(description) => Some(argument.name + SEPARATOR@ + description),
        None => None,
    }
}

/// The name under which a flag is shown.
pub open spec fn flag_name(flag: FlagView) -> Seq<char> {
    uppercase(strip_leading(flag.key, '-'))
}

/// The list entry of a flag: its box and its name.
pub open spec fn flag_entry(flag: FlagView) -> Seq<char> {
    if flag.set {
        CHECKED@ + flag_name(flag)
    } else {
        UNCHECKED@ + flag_name(flag)
    }
}

/// The description shown for a flag, where it has one.
pub open spec fn flag_description(flag: FlagView) -> Option<Seq<char>> {
    match flag.description {
        Some(description) => Some(flag_name(flag) + SEPARATOR@ + description),
        None => None,
    }
}

/// An item that the interface shows.
pub trait GUIDisplay {
    /// The text of the list entry.
    spec fn entry_text(&self) -> Seq<char>;

    /// The text of the description, where there is one.
    spec fn description_text(&self) -> Option<Seq<char>>;

    /// The list entry of the item.
    fn display_list(&self) -> (r: String)
        ensures
            r@ == self.entry_text(),
    ;

    /// The description of the item, where it has one.
    fn display_description(&self) -> (r: Option<String>)
        ensures
            r.deep_view() == self.description_text(),
    ;
}

impl GUIDisplay for CLIArgument {
    open spec fn entry_text(&self) -> Seq<char> {
        argument_entry(self@)
    }

    open spec fn description_text(&self) -> Option<Seq<char>> {
        argument_description(self@)
    }

    fn display_list(&self) -> (r: String) {
        self.name.clone().concat(SEPARATOR).concat(self.value.as_str())
    }

    fn display_description(&self) -> (r: Option<String>) {
        match &self.description {
            Some(description) => Some(
                self.name.clone().concat(SEPARATOR).concat(description.as_str()),
            ),
            None => None,
        }
    }
}

impl GUIDisplay for CLIFlag {
    open spec fn entry_text(&self) -> Seq<char> {
        flag_entry(self@)
    }

    open spec fn description_text(&self) -> Option<Seq<char>> {
        flag_description(self@)
    }

    fn display_list(&self) -> (r: String) {
        let checkbox = if self.set {
            CHECKED.to_owned()
        } else {
            UNCHECKED.to_owned()
        };
        let name = self.name();
        checkbox.concat(name.as_str())
    }

    fn display_description(&self) -> (r: Option<String>) {
        match &self.description {
            Some(description) => {
                let name = self.name();
                Some(name.concat(SEPARATOR).concat(description.as_str()))
            },
            None => None,
        }
    }
}

} // verus!
