//! The navigation state machine: one transition for each message.

use crate::controller::messages::{Direction, Message};
use crate::model::{Model, ModelView, Section};
use crate::parsing::{ArgumentView, FlagView, ParametersView};
use vstd::prelude::*;

pub mod messages;

verus! {

/// The section that follows `section` in the cycle arguments, flags,
/// options.
pub open spec fn next_section(section: Section) -> Section {
    match section {
        Section::Arguments => Section::Flags,
        Section::Flags => Section::Options,
        Section::Options => Section::Arguments,
    }
}

/// The section that precedes `section` in the cycle arguments, flags,
/// options.
pub open spec fn previous_section(section: Section) -> Section {
    match section {
        Section::Arguments => Section::Options,
        Section::Flags => Section::Arguments,
        Section::Options => Section::Flags,
    }
}

/// The first of three sections that has an entry.
pub open spec fn first_available(
    model: ModelView,
    first: Section,
    second: Section,
    third: Section,
) -> Option<Section> {
    if model.available(first) {
        Some(first)
    } else if model.available(second) {
        Some(second)
    } else if model.available(third) {
        Some(third)
    } else {
        None
    }
}

/// The section on which a move to the right lands: the first section after
/// the current one, in the cycle, that has an entry. The cycle ends with the
/// current section itself.
pub open spec fn section_after(model: ModelView) -> Option<Section> {
    let first = next_section(model.current_section);
    let second = next_section(first);
    first_available(model, first, second, next_section(second))
}

/// The section on which a move to the left lands: the first section before
/// the current one, in the cycle, that has an entry. The cycle ends with the
/// current section itself.
pub open spec fn section_before(model: ModelView) -> Option<Section> {
    let first = previous_section(model.current_section);
    let second = previous_section(first);
    first_available(model, first, second, previous_section(second))
}

/// The state after the selection went to the first entry of `target`; the
/// state itself where there is no target.
pub open spec fn selecting(model: ModelView, target: Option<Section>) -> ModelView {
    match target {
        Some(section) => ModelView { current_section: section, current_key_index: 0, ..model },
        None => model,
    }
}

/// The index below `index` in a section of `len` entries, the first after the
/// last.
pub open spec fn index_down(index: nat, len: nat) -> nat {
    if len == 0 {
        index
    } else {
        ((index as int + 1) % (len as int)) as nat
    }
}

/// The index above `index` in a section of `len` entries, the last before
/// the first.
pub open spec fn index_up(index: nat, len: nat) -> nat {
    if len == 0 {
        index
    } else if index == 0 {
        (len - 1) as nat
    } else {
        (index - 1) as nat
    }
}

/// The state after a move.
pub open spec fn moved(model: ModelView, direction: Direction) -> ModelView {
    match direction {
        Direction::Down => ModelView {
            current_key_index: index_down(model.current_key_index, model.selected_len()),
            ..model
        },
        Direction::Up => ModelView {
            current_key_index: index_up(model.current_key_index, model.selected_len()),
            ..model
        },
        Direction::Right => selecting(model, section_after(model)),
        Direction::Left => selecting(model, section_before(model)),
    }
}

/// Whether the selected entry holds text: the current section is that of
/// the arguments or that of the options, and the index points at an entry.
pub open spec fn selects_text(model: ModelView) -> bool {
    model.has_selection() && model.current_section != Section::Flags
}

/// The value of the selected entry, where it holds text.
pub open spec fn selected_value(model: ModelView) -> Seq<char> {
    match model.current_section {
        Section::Arguments => model.parameters.arguments[model.current_key_index as int].value,
        Section::Options => model.parameters.options[model.current_key_index as int].value,
        Section::Flags => Seq::empty(),
    }
}

/// The state in which the selected entry has the value `value`; the state
/// itself where the selected entry holds no text.
pub open spec fn with_selected_value(model: ModelView, value: Seq<char>) -> ModelView {
    let i = model.current_key_index as int;
    if !selects_text(model) {
        model
    } else if model.current_section == Section::Arguments {
        ModelView {
            parameters: ParametersView {
                arguments: model.parameters.arguments.update(
                    i,
                    ArgumentView { value, ..model.parameters.arguments[i] },
                ),
                ..model.parameters
            },
            ..model
        }
    } else {
        ModelView {
            parameters: ParametersView {
                options: model.parameters.options.update(
                    i,
                    ArgumentView { value, ..model.parameters.options[i] },
                ),
                ..model.parameters
            },
            ..model
        }
    }
}

/// The state after `ch` was typed.
pub open spec fn edited(model: ModelView, ch: char) -> ModelView {
    with_selected_value(model, selected_value(model).push(ch))
}

/// The state after the last character of the selected value was removed; the
/// state itself where that value is empty.
pub open spec fn removed(model: ModelView) -> ModelView {
    if selected_value(model).len() == 0 {
        model
    } else {
        with_selected_value(model, selected_value(model).drop_last())
    }
}

/// The state after the selected flag was inverted; the state itself where no
/// flag is selected.
pub open spec fn toggled(model: ModelView) -> ModelView {
    let i = model.current_key_index as int;
    if model.has_selection() && model.current_section == Section::Flags {
        ModelView {
            parameters: ParametersView {
                flags: model.parameters.flags.update(
                    i,
                    FlagView { set: !model.parameters.flags[i].set, ..model.parameters.flags[i] },
                ),
                ..model.parameters
            },
            ..model
        }
    } else {
        model
    }
}

/// The state after a message.
pub open spec fn updated(model: ModelView, message: Message) -> ModelView {
    match message {
        Message::Move(direction) => moved(model, direction),
        Message::TextEdit(ch) => edited(model, ch),
        Message::RemoveText => removed(model),
        Message::Toggle => toggled(model),
        Message::Run => ModelView { run: true, ..model },
        Message::Quit => ModelView { exit: true, ..model },
    }
}

/// The state after `count` times the same message.
pub open spec fn repeated(model: ModelView, message: Message, count: nat) -> ModelView
    decreases count,
{
    if count == 0 {
        model
    } else {
        updated(repeated(model, message, (count - 1) as nat), message)
    }
}

/// Applies one message to the state of a session.
pub fn update(model: &mut Model, message: Message)
    ensures
        final(model)@ == updated(old(model)@, message),
        old(model)@.wf() ==> final(model)@.wf(),
{
    match message {
        Message::Move(direction) => move_selected_index(model, direction),
        Message::TextEdit(ch) => edit_text(model, ch),
        Message::RemoveText => remove_text(model),
        Message::Toggle => toggle_flag(model),
        Message::Run => run(model),
        Message::Quit => quit(model),
    }
}

/// The section that follows `section` in the cycle.
pub fn get_next_section(section: Section) -> (r: Section)
    ensures
        r == next_section(section),
{
    match section {
        Section::Arguments => Section::Flags,
        Section::Flags => Section::Options,
        Section::Options => Section::Arguments,
    }
}

/// The section that precedes `section` in the cycle.
pub fn get_previous_section(section: Section) -> (r: Section)
    ensures
        r == previous_section(section),
{
    match section {
        Section::Arguments => Section::Options,
        Section::Flags => Section::Arguments,
        Section::Options => Section::Flags,
    }
}

/// Moves the selection to the next section that has an entry.
pub fn set_next_section(model: &mut Model)
    ensures
        final(model)@ == selecting(old(model)@, section_after(old(model)@)),
        old(model)@.wf() ==> final(model)@.wf(),
{
    let ghost start = model@;
    let mut possible_next_section = get_next_section(model.current_section);
    let mut tried: u8 = 0;
    while tried < 3
        invariant
            tried <= 3,
            start == old(model)@,
            model@ == start,
            tried == 0 ==> possible_next_section == next_section(start.current_section),
            tried == 1 ==> possible_next_section == next_section(
                next_section(start.current_section),
            ) && !start.available(next_section(start.current_section)),
            tried == 2 ==> possible_next_section == start.current_section && !start.available(
                next_section(start.current_section),
            ) && !start.available(next_section(next_section(start.current_section))),
            tried == 3 ==> section_after(start) is None,
        decreases 3 - tried,
    {
        if model.section_is_available(possible_next_section) {
            model.current_section = possible_next_section;
            model.current_key_index = 0;
            return;
        } else {
            possible_next_section = get_next_section(possible_next_section);
            tried += 1;
        }
    }
}

/// Moves the selection to the previous section that has an entry.
pub fn set_previous_section(model: &mut Model)
    ensures
        final(model)@ == selecting(old(model)@, section_before(old(model)@)),
        old(model)@.wf() ==> final(model)@.wf(),
{
    let ghost start = model@;
    let mut possible_previous_section = get_previous_section(model.current_section);
    let mut tried: u8 = 0;
    while tried < 3
        invariant
            tried <= 3,
            start == old(model)@,
            model@ == start,
            tried == 0 ==> possible_previous_section == previous_section(start.current_section),
            tried == 1 ==> possible_previous_section == previous_section(
                previous_section(start.current_section),
            ) && !start.available(previous_section(start.current_section)),
            tried == 2 ==> possible_previous_section == start.current_section && !start.available(
                previous_section(start.current_section),
            ) && !start.available(previous_section(previous_section(start.current_section))),
            tried == 3 ==> section_before(start) is None,
        decreases 3 - tried,
    {
        if model.section_is_available(possible_previous_section) {
            model.current_section = possible_previous_section;
            model.current_key_index = 0;
            return;
        } else {
            possible_previous_section = get_previous_section(possible_previous_section);
            tried += 1;
        }
    }
}

/// Moves the selection by one entry or by one section.
pub fn move_selected_index(model: &mut Model, direction: Direction)
    ensures
        final(model)@ == moved(old(model)@, direction),
        old(model)@.wf() ==> final(model)@.wf(),
{
    match direction {
        Direction::Down => {
            let len = model.get_selected_parameter_len();
            if len > 0 {
                let index = model.current_key_index % len;
                proof {
                    vstd::arithmetic::div_mod::lemma_add_mod_noop(
                        model.current_key_index as int,
                        1,
                        len as int,
                    );
                    vstd::arithmetic::div_mod::lemma_mod_twice(
                        model.current_key_index as int,
                        len as int,
                    );
                    vstd::arithmetic::div_mod::lemma_add_mod_noop(index as int, 1, len as int);
                }
                model.current_key_index = (index + 1) % len;
            }
        },
        Direction::Up => {
            let len = model.get_selected_parameter_len();
            if len > 0 {
                if model.current_key_index == 0 {
                    model.current_key_index = len - 1;
                } else {
                    model.current_key_index -= 1;
                }
            }
        },
        Direction::Right => set_next_section(model),
        Direction::Left => set_previous_section(model),
    }
}

/// Appends `ch` to the selected value.
pub fn edit_text(model: &mut Model, ch: char)
    ensures
        final(model)@ == edited(old(model)@, ch),
        old(model)@.wf() ==> final(model)@.wf(),
{
    let i = model.current_key_index;
    match model.current_section {
        Section::Arguments => {
            if i < model.parameters.arguments.len() {
                model.parameters.arguments[i].value.push(ch);
                proof {
                    assert(model@.parameters.arguments =~= edited(
                        old(model)@,
                        ch,
                    ).parameters.arguments);
                    assert(model@.parameters.options =~= old(model)@.parameters.options);
                    assert(model@.parameters.flags =~= old(model)@.parameters.flags);
                }
            }
        },
        Section::Options => {
            if i < model.parameters.options.len() {
                model.parameters.options[i].value.push(ch);
                proof {
                    assert(model@.parameters.options =~= edited(
                        old(model)@,
                        ch,
                    ).parameters.options);
                    assert(model@.parameters.arguments =~= old(model)@.parameters.arguments);
                    assert(model@.parameters.flags =~= old(model)@.parameters.flags);
                }
            }
        },
        Section::Flags => (),
    }
}

/// Removes the last character of the selected value.
pub fn remove_text(model: &mut Model)
    ensures
        final(model)@ == removed(old(model)@),
        old(model)@.wf() ==> final(model)@.wf(),
{
    let i = model.current_key_index;
    match model.current_section {
        Section::Arguments => {
            if i < model.parameters.arguments.len() {
                let _ = model.parameters.arguments[i].value.pop();
                proof {
                    assert(model@.parameters.arguments =~= removed(
                        old(model)@,
                    ).parameters.arguments);
                    assert(model@.parameters.options =~= old(model)@.parameters.options);
                    assert(model@.parameters.flags =~= old(model)@.parameters.flags);
                }
            }
        },
        Section::Options => {
            if i < model.parameters.options.len() {
                let _ = model.parameters.options[i].value.pop();
                proof {
                    assert(model@.parameters.options =~= removed(
                        old(model)@,
                    ).parameters.options);
                    assert(model@.parameters.arguments =~= old(model)@.parameters.arguments);
                    assert(model@.parameters.flags =~= old(model)@.parameters.flags);
                }
            }
        },
        Section::Flags => (),
    }
}

/// Inverts the selected flag.
pub fn toggle_flag(model: &mut Model)
    ensures
        final(model)@ == toggled(old(model)@),
        old(model)@.wf() ==> final(model)@.wf(),
{
    let i = model.current_key_index;
    match model.current_section {
        Section::Flags => {
            if i < model.parameters.flags.len() {
                let set = model.parameters.flags[i].set;
                model.parameters.flags[i].set = !set;
                proof {
                    assert(model@.parameters.flags =~= toggled(old(model)@).parameters.flags);
                    assert(model@.parameters.arguments =~= old(model)@.parameters.arguments);
                    assert(model@.parameters.options =~= old(model)@.parameters.options);
                }
            }
        },
        _ => (),
    }
}

/// Requests that the invocation be made.
pub fn run(model: &mut Model)
    ensures
        final(model)@ == (ModelView { run: true, ..old(model)@ }),
{
    model.run = true;
}

/// Requests that the session end.
pub fn quit(model: &mut Model)
    ensures
        final(model)@ == (ModelView { exit: true, ..old(model)@ }),
{
    model.exit = true;
}

/// A value-bearing entry but for its value.
pub open spec fn argument_identity(argument: ArgumentView) -> ArgumentView {
    ArgumentView { value: Seq::empty(), ..argument }
}

/// A flag but for its setting.
pub open spec fn flag_identity(flag: FlagView) -> FlagView {
    FlagView { set: false, ..flag }
}

/// No message adds, removes or reorders an entry, or renames the program or
/// an entry: only values and settings change.
pub proof fn lemma_update_keeps_entries(model: ModelView, message: Message)
    ensures
        updated(model, message).parameters.cli_name == model.parameters.cli_name,
        updated(model, message).parameters.cli_lib == model.parameters.cli_lib,
        updated(model, message).parameters.arguments.map_values(
            |argument: ArgumentView| argument_identity(argument),
        ) == model.parameters.arguments.map_values(
            |argument: ArgumentView| argument_identity(argument),
        ),
        updated(model, message).parameters.options.map_values(
            |option: ArgumentView| argument_identity(option),
        ) == model.parameters.options.map_values(|option: ArgumentView| argument_identity(option)),
        updated(model, message).parameters.flags.map_values(|flag: FlagView| flag_identity(flag))
            == model.parameters.flags.map_values(|flag: FlagView| flag_identity(flag)),
{
    let after = updated(model, message);
    assert(after.parameters.arguments.map_values(
        |argument: ArgumentView| argument_identity(argument),
    ) =~= model.parameters.arguments.map_values(
        |argument: ArgumentView| argument_identity(argument),
    ));
    assert(after.parameters.options.map_values(|option: ArgumentView| argument_identity(option))
        =~= model.parameters.options.map_values(|option: ArgumentView| argument_identity(option)));
    assert(after.parameters.flags.map_values(|flag: FlagView| flag_identity(flag))
        =~= model.parameters.flags.map_values(|flag: FlagView| flag_identity(flag)));
}

/// A valid state stays valid under every message.
pub proof fn lemma_update_keeps_validity(model: ModelView, message: Message)
    requires
        model.wf(),
    ensures
        updated(model, message).wf(),
{
    if model.selected_len() > 0 {
        assert(index_down(model.current_key_index, model.selected_len()) < model.selected_len())
            by (nonlinear_arith)
            requires
                model.selected_len() > 0,
        ;
    }
}

/// Removing text from an entry whose value is empty changes nothing.
pub proof fn lemma_remove_from_empty(model: ModelView)
    requires
        selected_value(model).len() == 0,
    ensures
        updated(model, Message::RemoveText) == model,
{
}

/// A message that edits text changes nothing while a flag is selected, and
/// the toggle changes nothing while a text is selected.
pub proof fn lemma_edits_keep_to_their_section(model: ModelView, ch: char)
    ensures
        model.current_section == Section::Flags ==> updated(model, Message::TextEdit(ch)) == model
            && updated(model, Message::RemoveText) == model,
        model.current_section != Section::Flags ==> updated(model, Message::Toggle) == model,
{
}

/// Moving down `count` times in a section with entries adds `count` to the
/// index, modulo the length of the section.
proof fn lemma_down_repeated(model: ModelView, count: nat)
    requires
        model.selected_len() > 0,
    ensures
        repeated(model, Message::Move(Direction::Down), count) == (ModelView {
            current_key_index: if count == 0 {
                model.current_key_index
            } else {
                ((model.current_key_index as int + count) % (model.selected_len() as int)) as nat
            },
            ..model
        }),
    decreases count,
{
    if count > 0 {
        let len = model.selected_len() as int;
        let index = model.current_key_index as int;
        lemma_down_repeated(model, (count - 1) as nat);
        if count > 1 {
            vstd::arithmetic::div_mod::lemma_add_mod_noop(index + count - 1, 1, len);
            vstd::arithmetic::div_mod::lemma_mod_twice(index + count - 1, len);
            vstd::arithmetic::div_mod::lemma_add_mod_noop((index + count - 1) % len, 1, len);
        }
    }
}

/// Moving up `count` times in a valid state whose section has entries takes
/// `count` from the index, modulo the length of the section.
proof fn lemma_up_repeated(model: ModelView, count: nat)
    requires
        model.selected_len() > 0,
        model.wf(),
    ensures
        repeated(model, Message::Move(Direction::Up), count) == (ModelView {
            current_key_index: ((model.current_key_index - count) % (
            model.selected_len() as int)) as nat,
            ..model
        }),
    decreases count,
{
    let len = model.selected_len() as int;
    let index = model.current_key_index as int;
    if count == 0 {
        vstd::arithmetic::div_mod::lemma_small_mod(index as nat, len as nat);
    } else {
        lemma_up_repeated(model, (count - 1) as nat);
        let before = (index - (count - 1)) % len;
        vstd::arithmetic::div_mod::lemma_mod_bound(index - (count - 1), len);
        vstd::arithmetic::div_mod::lemma_sub_mod_noop(index - (count - 1), 1, len);
        if len == 1 {
            vstd::arithmetic::div_mod::lemma_mod_self_0(1);
            vstd::arithmetic::div_mod::lemma_small_mod(0, 1);
        } else {
            vstd::arithmetic::div_mod::lemma_small_mod(1, len as nat);
            if before == 0 {
                vstd::arithmetic::div_mod::lemma_mod_sub_multiples_vanish(len - 1, len);
                vstd::arithmetic::div_mod::lemma_small_mod((len - 1) as nat, len as nat);
            } else {
                vstd::arithmetic::div_mod::lemma_small_mod((before - 1) as nat, len as nat);
            }
        }
    }
}

/// Moving down as many times as the current section has entries leads back
/// to the state from which the moves began.
pub proof fn lemma_down_wraps(model: ModelView)
    requires
        model.wf(),
    ensures
        repeated(model, Message::Move(Direction::Down), model.selected_len()) == model,
{
    let len = model.selected_len();
    if len > 0 {
        lemma_down_repeated(model, len);
        vstd::arithmetic::div_mod::lemma_mod_add_multiples_vanish(
            model.current_key_index as int,
            len as int,
        );
        vstd::arithmetic::div_mod::lemma_small_mod(model.current_key_index, len);
    }
}

/// Moving up as many times as the current section has entries leads back to
/// the state from which the moves began.
pub proof fn lemma_up_wraps(model: ModelView)
    requires
        model.wf(),
    ensures
        repeated(model, Message::Move(Direction::Up), model.selected_len()) == model,
{
    let len = model.selected_len();
    if len > 0 {
        lemma_up_repeated(model, len);
        vstd::arithmetic::div_mod::lemma_mod_sub_multiples_vanish(
            model.current_key_index as int,
            len as int,
        );
        vstd::arithmetic::div_mod::lemma_small_mod(model.current_key_index, len);
    }
}

/// A move down and then a move up, or a move up and then a move down, lead
/// back to the state from which they began.
pub proof fn lemma_down_and_up_cancel(model: ModelView)
    requires
        model.wf(),
    ensures
        updated(updated(model, Message::Move(Direction::Down)), Message::Move(Direction::Up))
            == model,
        updated(updated(model, Message::Move(Direction::Up)), Message::Move(Direction::Down))
            == model,
{
    let len = model.selected_len();
    if len > 0 {
        let index = model.current_key_index;
        if index + 1 < len {
            vstd::arithmetic::div_mod::lemma_small_mod(index + 1, len);
        } else {
            vstd::arithmetic::div_mod::lemma_mod_self_0(len as int);
        }
        if index == 0 {
            vstd::arithmetic::div_mod::lemma_mod_self_0(len as int);
        } else {
            vstd::arithmetic::div_mod::lemma_small_mod(index, len);
        }
    }
}

/// A move to the left or to the right lands on a section that has an entry,
/// and on the first entry of it. It changes nothing only where no section
/// has an entry.
pub proof fn lemma_sideways_lands_on_entries(model: ModelView, direction: Direction)
    requires
        direction == Direction::Left || direction == Direction::Right,
    ensures
        ({
            let after = moved(model, direction);
            if model.available(Section::Arguments) || model.available(Section::Flags)
                || model.available(Section::Options) {
                after.available(after.current_section) && after.current_key_index == 0
            } else {
                after == model
            }
        }),
{
}

/// With no arguments, but with flags and options, a move to the right from
/// the flags lands on the options, a second one on the flags again: the
/// arguments are passed over.
pub proof fn lemma_right_skips_empty_arguments(model: ModelView)
    requires
        !model.available(Section::Arguments),
        model.available(Section::Flags),
        model.available(Section::Options),
        model.current_section == Section::Flags,
    ensures
        updated(model, Message::Move(Direction::Right)).current_section == Section::Options,
        repeated(model, Message::Move(Direction::Right), 2).current_section == Section::Flags,
{
    reveal_with_fuel(repeated, 3);
}

} // verus!
