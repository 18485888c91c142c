//! The state of a session: the parameters and the selection among them.

use crate::parsing::{CLIParameters, ParametersView};
use crate::ui::{argument_description, flag_description, GUIDisplay};
use vstd::prelude::*;

verus! {

/// The three lists between which the selection moves.
#[derive(Debug, PartialEq, Eq, Clone, Copy, Structural)]
pub enum Section {
    Arguments,
    Flags,
    Options,
}

/// The state of a session.
#[derive(Debug)]
pub struct Model {
    pub parameters: CLIParameters,
    pub current_section: Section,
    pub current_key_index: usize,
    pub run: bool,
    pub exit: bool,
}

/// The state of a session as plain values.
pub struct ModelView {
    pub parameters: ParametersView,
    pub current_section: Section,
    pub current_key_index: nat,
    pub run: bool,
    pub exit: bool,
}

impl View for Model {
    type V = ModelView;

    open spec fn view(&self) -> ModelView {
        ModelView {
            parameters: self.parameters@,
            current_section: self.current_section,
            current_key_index: self.current_key_index as nat,
            run: self.run,
            exit: self.exit,
        }
    }
}

impl ModelView {
    /// The number of entries of a section.
    pub open spec fn section_len(self, section: Section) -> nat {
        match section {
            Section::Arguments => self.parameters.arguments.len(),
            Section::Flags => self.parameters.flags.len(),
            Section::Options => self.parameters.options.len(),
        }
    }

    /// The number of entries of the current section.
    pub open spec fn selected_len(self) -> nat {
        self.section_len(self.current_section)
    }

    /// A section can be selected where it has an entry.
    pub open spec fn available(self, section: Section) -> bool {
        self.section_len(section) > 0
    }

    /// The index points at an entry of the current section.
    pub open spec fn has_selection(self) -> bool {
        self.current_key_index < self.selected_len()
    }

    /// The validity of a state: where the current section has entries, the
    /// index points at one of them.
    pub open spec fn wf(self) -> bool {
        self.selected_len() > 0 ==> self.current_key_index < self.selected_len()
    }

    /// The description of the selected entry, where there is a selected
    /// entry and it has one.
    pub open spec fn selected_description(self) -> Option<Seq<char>> {
        if self.has_selection() {
            match self.current_section {
                Section::Arguments => argument_description(
                    self.parameters.arguments[self.current_key_index as int],
                ),
                Section::Flags => flag_description(
                    self.parameters.flags[self.current_key_index as int],
                ),
                Section::Options => argument_description(
                    self.parameters.options[self.current_key_index as int],
                ),
            }
        } else {
            None
        }
    }
}

/// The state in which a session starts: the first entry of the arguments is
/// selected, and neither submit nor exit is requested.
pub open spec fn initial(parameters: ParametersView) -> ModelView {
    ModelView {
        parameters,
        current_section: Section::Arguments,
        current_key_index: 0,
        run: false,
        exit: false,
    }
}

impl Model {
    /// Starts a session on `parameters`.
    pub fn new(parameters: CLIParameters) -> (model: Self)
        ensures
            model.parameters == parameters,
            model@ == initial(parameters@),
            model@.wf(),
    {
        Self {
            parameters,
            current_section: Section::Arguments,
            current_key_index: 0,
            run: false,
            exit: false,
        }
    }

    /// The description of the selected entry.
    pub fn get_selected_description(&self) -> (r: Option<String>)
        ensures
            r.deep_view() == self@.selected_description(),
    {
        if self.current_key_index >= self.get_selected_parameter_len() {
            return None;
        }
        match self.current_section {
            Section::Arguments => self.parameters.arguments[self.current_key_index].display_description(),
            Section::Flags => self.parameters.flags[self.current_key_index].display_description(),
            Section::Options => self.parameters.options[self.current_key_index].display_description(),
        }
    }

    /// The index of the selected entry, where `section` is the current one.
    pub fn get_selected_index(&self, section: Section) -> (r: Option<usize>)
        ensures
            r == if section == self.current_section {
                Some(self.current_key_index)
            } else {
                None
            },
    {
        if section == self.current_section {
            Some(self.current_key_index)
        } else {
            None
        }
    }

    /// The number of entries of the current section.
    pub fn get_selected_parameter_len(&self) -> (r: usize)
        ensures
            r == self@.selected_len(),
    {
        match self.current_section {
            Section::Arguments => self.parameters.arguments.len(),
            Section::Flags => self.parameters.flags.len(),
            Section::Options => self.parameters.options.len(),
        }
    }

    /// Whether `section` has an entry to select.
    pub fn section_is_available(&self, section: Section) -> (r: bool)
        ensures
            r == self@.available(section),
    {
        match section {
            Section::Arguments => !self.parameters.arguments.is_empty(),
            Section::Flags => !self.parameters.flags.is_empty(),
            Section::Options => !self.parameters.options.is_empty(),
        }
    }
}

} // verus!
