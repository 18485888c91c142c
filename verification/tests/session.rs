use cli_tui::cli::Invocation;
use cli_tui::controller::messages::{
    Direction, KeyCode, KeyEvent, KeyEventKind, KeyModifiers, Message,
};
use cli_tui::controller::{
    edit_text, get_next_section, get_previous_section, move_selected_index, quit, remove_text,
    run, set_next_section, set_previous_section, toggle_flag, update,
};
use cli_tui::model::{Model, Section};
use cli_tui::parsing::{
    convert_to_clap_cli, convert_to_cli, parse_help_string, CLIArgument, CLIFlag, CLILib,
    CLIParameters,
};
use cli_tui::session::{step, Step};
use cli_tui::ui::GUIDisplay;

fn argument(key: &str, name: &str, description: Option<&str>, value: &str) -> CLIArgument {
    CLIArgument {
        key: String::from(key),
        name: String::from(name),
        description: description.map(String::from),
        value: String::from(value),
    }
}

fn flag(key: &str, description: Option<&str>, set: bool) -> CLIFlag {
    CLIFlag { key: String::from(key), description: description.map(String::from), set }
}

fn model_of(arguments: usize, flags: usize, options: usize) -> Model {
    Model::new(CLIParameters {
        cli_name: String::from("tool"),
        arguments: (0..arguments)
            .map(|i| argument(&format!("--arg{i}"), &format!("ARG{i}"), None, ""))
            .collect(),
        options: (0..options)
            .map(|i| argument(&format!("--opt{i}"), &format!("OPT{i}"), Some("An option"), "x"))
            .collect(),
        flags: (0..flags).map(|i| flag(&format!("--flag{i}"), Some("A flag"), false)).collect(),
        cli_lib: CLILib::Clap,
    })
}

fn press(code: KeyCode) -> Option<KeyEvent> {
    Some(KeyEvent::new_with_kind(code, KeyModifiers::empty(), KeyEventKind::Press))
}

fn tokens(list: &[&str]) -> Vec<String> {
    list.iter().map(|token| token.to_string()).collect()
}

const GREETER_HELP: &str = "Usage: greeter.exe [OPTIONS] --first-name <FIRST_NAME> --last-name <LAST_NAME>\n\nOptions:\n  -f, --first-name <FIRST_NAME>  First name\n  -c, --count <COUNT>  Number of times [default: 1]\n      --caps  Greet in caps\n  -h, --help  Print help";

#[test]
fn test_new_model_selects_first_argument() {
    let model = model_of(2, 1, 1);
    assert_eq!(model.current_section, Section::Arguments);
    assert_eq!(model.current_key_index, 0);
    assert!(!model.run);
    assert!(!model.exit);
    assert_eq!(model.parameters.arguments.len(), 2);
}

#[test]
fn test_selected_index_and_len() {
    let mut model = model_of(2, 3, 1);
    assert_eq!(model.get_selected_parameter_len(), 2);
    assert_eq!(model.get_selected_index(Section::Arguments), Some(0));
    assert_eq!(model.get_selected_index(Section::Flags), None);
    assert_eq!(model.get_selected_index(Section::Options), None);
    model.current_section = Section::Flags;
    model.current_key_index = 2;
    assert_eq!(model.get_selected_parameter_len(), 3);
    assert_eq!(model.get_selected_index(Section::Flags), Some(2));
    assert_eq!(model.get_selected_index(Section::Arguments), None);
    model.current_section = Section::Options;
    assert_eq!(model.get_selected_parameter_len(), 1);
}

#[test]
fn test_section_is_available() {
    let model = model_of(0, 2, 1);
    assert!(!model.section_is_available(Section::Arguments));
    assert!(model.section_is_available(Section::Flags));
    assert!(model.section_is_available(Section::Options));
}

#[test]
fn test_selected_description() {
    let mut model = Model::new(CLIParameters {
        cli_name: String::from("tool"),
        arguments: vec![
            argument("--name", "NAME", Some("Name to greet"), ""),
            argument("--plain", "PLAIN", None, ""),
        ],
        options: vec![argument("--count", "COUNT", Some("How often"), "1")],
        flags: vec![flag("--help", Some("Print help"), false), flag("-v", None, true)],
        cli_lib: CLILib::Clap,
    });
    assert_eq!(model.get_selected_description(), Some(String::from("NAME: Name to greet")));
    model.current_key_index = 1;
    assert_eq!(model.get_selected_description(), None);
    model.current_key_index = 2;
    assert_eq!(model.get_selected_description(), None);
    model.current_section = Section::Flags;
    model.current_key_index = 0;
    assert_eq!(model.get_selected_description(), Some(String::from("HELP: Print help")));
    model.current_key_index = 1;
    assert_eq!(model.get_selected_description(), None);
    model.current_section = Section::Options;
    model.current_key_index = 0;
    assert_eq!(model.get_selected_description(), Some(String::from("COUNT: How often")));
}

#[test]
fn test_selected_description_of_empty_section() {
    let model = model_of(0, 1, 1);
    assert_eq!(model.get_selected_description(), None);
}

#[test]
fn test_flag_name_is_upper_case_without_dashes() {
    assert_eq!(flag("--help", None, false).name(), "HELP");
    assert_eq!(flag("-v", None, false).name(), "V");
    assert_eq!(flag("--dry-run", None, false).name(), "DRY-RUN");
    assert_eq!(flag("--straße", None, false).name(), "STRASSE");
    assert_eq!(flag("", None, false).name(), "");
}

#[test]
fn test_display_list() {
    assert_eq!(argument("--name", "NAME", None, "Ferris").display_list(), "NAME: Ferris");
    assert_eq!(argument("--name", "NAME", None, "").display_list(), "NAME: ");
    assert_eq!(flag("--caps", None, true).display_list(), "[x] CAPS");
    assert_eq!(flag("--caps", None, false).display_list(), "[ ] CAPS");
}

#[test]
fn test_display_description() {
    assert_eq!(
        argument("--name", "NAME", Some("Name to greet"), "x").display_description(),
        Some(String::from("NAME: Name to greet"))
    );
    assert_eq!(argument("--name", "NAME", None, "x").display_description(), None);
    assert_eq!(
        flag("--caps", Some("Greet in caps"), true).display_description(),
        Some(String::from("CAPS: Greet in caps"))
    );
    assert_eq!(flag("--caps", None, true).display_description(), None);
}

#[test]
fn test_section_cycle() {
    assert_eq!(get_next_section(Section::Arguments), Section::Flags);
    assert_eq!(get_next_section(Section::Flags), Section::Options);
    assert_eq!(get_next_section(Section::Options), Section::Arguments);
    assert_eq!(get_previous_section(Section::Arguments), Section::Options);
    assert_eq!(get_previous_section(Section::Flags), Section::Arguments);
    assert_eq!(get_previous_section(Section::Options), Section::Flags);
}

#[test]
fn test_down_as_often_as_entries_returns() {
    for len in 1..6 {
        for start in 0..len {
            let mut model = model_of(len, 1, 1);
            model.current_key_index = start;
            for turn in 1..=len {
                update(&mut model, Message::Move(Direction::Down));
                assert_eq!(model.current_key_index, (start + turn) % len);
            }
            assert_eq!(model.current_key_index, start);
        }
    }
}

#[test]
fn test_up_as_often_as_entries_returns() {
    for len in 1..6 {
        for start in 0..len {
            let mut model = model_of(1, len, 1);
            model.current_section = Section::Flags;
            model.current_key_index = start;
            for turn in 1..=len {
                update(&mut model, Message::Move(Direction::Up));
                assert_eq!(model.current_key_index, (start + len - turn) % len);
            }
            assert_eq!(model.current_key_index, start);
        }
    }
}

#[test]
fn test_up_and_down_in_empty_section() {
    let mut model = model_of(0, 1, 1);
    move_selected_index(&mut model, Direction::Down);
    assert_eq!(model.current_key_index, 0);
    move_selected_index(&mut model, Direction::Up);
    assert_eq!(model.current_key_index, 0);
    assert_eq!(model.current_section, Section::Arguments);
}

#[test]
fn test_down_from_index_beyond_the_section() {
    let mut model = model_of(3, 0, 0);
    model.current_key_index = 7;
    update(&mut model, Message::Move(Direction::Down));
    assert_eq!(model.current_key_index, 2);
    model.current_key_index = usize::MAX;
    update(&mut model, Message::Move(Direction::Down));
    assert_eq!(model.current_key_index, ((usize::MAX % 3) + 1) % 3);
    model.current_key_index = 7;
    update(&mut model, Message::Move(Direction::Up));
    assert_eq!(model.current_key_index, 6);
}

#[test]
fn test_right_skips_empty_arguments() {
    let mut model = model_of(0, 2, 2);
    model.current_section = Section::Flags;
    model.current_key_index = 1;

    update(&mut model, Message::Move(Direction::Right));
    assert_eq!(model.current_section, Section::Options);
    assert_eq!(model.current_key_index, 0);

    update(&mut model, Message::Move(Direction::Right));
    assert_eq!(model.current_section, Section::Flags);

    update(&mut model, Message::Move(Direction::Left));
    assert_eq!(model.current_section, Section::Options);
}

#[test]
fn test_sideways_from_empty_arguments() {
    let mut model = model_of(0, 1, 1);
    set_next_section(&mut model);
    assert_eq!(model.current_section, Section::Flags);
    let mut model = model_of(0, 1, 1);
    set_previous_section(&mut model);
    assert_eq!(model.current_section, Section::Options);
}

#[test]
fn test_sideways_with_one_section_resets_index() {
    let mut model = model_of(3, 0, 0);
    model.current_key_index = 2;
    update(&mut model, Message::Move(Direction::Right));
    assert_eq!(model.current_section, Section::Arguments);
    assert_eq!(model.current_key_index, 0);
    model.current_key_index = 1;
    update(&mut model, Message::Move(Direction::Left));
    assert_eq!(model.current_section, Section::Arguments);
    assert_eq!(model.current_key_index, 0);
}

#[test]
fn test_sideways_without_any_entry_changes_nothing() {
    let mut model = model_of(0, 0, 0);
    model.current_section = Section::Flags;
    model.current_key_index = 4;
    update(&mut model, Message::Move(Direction::Right));
    assert_eq!(model.current_section, Section::Flags);
    assert_eq!(model.current_key_index, 4);
    update(&mut model, Message::Move(Direction::Left));
    assert_eq!(model.current_section, Section::Flags);
    assert_eq!(model.current_key_index, 4);
}

#[test]
fn test_remove_text_from_empty_value_changes_nothing() {
    let mut model = model_of(2, 1, 1);
    let before = format!("{:?}", model);
    update(&mut model, Message::RemoveText);
    assert_eq!(format!("{:?}", model), before);
    remove_text(&mut model);
    assert_eq!(format!("{:?}", model), before);
}

#[test]
fn test_edit_and_remove_in_options() {
    let mut model = model_of(1, 1, 2);
    model.current_section = Section::Options;
    model.current_key_index = 1;
    edit_text(&mut model, 'y');
    edit_text(&mut model, 'é');
    assert_eq!(model.parameters.options[1].value, "xyé");
    assert_eq!(model.parameters.options[0].value, "x");
    remove_text(&mut model);
    assert_eq!(model.parameters.options[1].value, "xy");
    remove_text(&mut model);
    remove_text(&mut model);
    remove_text(&mut model);
    assert_eq!(model.parameters.options[1].value, "");
    assert_eq!(model.parameters.options[0].value, "x");
    assert_eq!(model.parameters.arguments[0].value, "");
}

#[test]
fn test_edits_without_selected_entry_change_nothing() {
    let mut model = model_of(0, 1, 1);
    let before = format!("{:?}", model);
    update(&mut model, Message::TextEdit('a'));
    update(&mut model, Message::RemoveText);
    update(&mut model, Message::Toggle);
    assert_eq!(format!("{:?}", model), before);

    let mut model = model_of(1, 1, 1);
    model.current_key_index = 1;
    let before = format!("{:?}", model);
    update(&mut model, Message::TextEdit('a'));
    update(&mut model, Message::RemoveText);
    model.current_section = Section::Flags;
    let before_flags = format!("{:?}", model);
    update(&mut model, Message::Toggle);
    assert_eq!(format!("{:?}", model), before_flags);
    model.current_section = Section::Arguments;
    assert_eq!(format!("{:?}", model), before);
}

#[test]
fn test_text_messages_in_flags_change_nothing() {
    let mut model = model_of(1, 1, 1);
    model.current_section = Section::Flags;
    let before = format!("{:?}", model);
    update(&mut model, Message::TextEdit('a'));
    update(&mut model, Message::RemoveText);
    assert_eq!(format!("{:?}", model), before);
}

#[test]
fn test_toggle_twice() {
    let mut model = model_of(1, 2, 1);
    model.current_section = Section::Flags;
    model.current_key_index = 1;
    toggle_flag(&mut model);
    assert!(model.parameters.flags[1].set);
    assert!(!model.parameters.flags[0].set);
    toggle_flag(&mut model);
    assert!(!model.parameters.flags[1].set);
    model.current_section = Section::Arguments;
    model.current_key_index = 0;
    toggle_flag(&mut model);
    assert!(!model.parameters.flags[0].set);
}

#[test]
fn test_run_and_quit_set_their_flag_only() {
    let mut model = model_of(1, 1, 1);
    run(&mut model);
    assert!(model.run);
    assert!(!model.exit);
    let mut model = model_of(1, 1, 1);
    quit(&mut model);
    assert!(model.exit);
    assert!(!model.run);
}

#[test]
fn test_synthesis_order_and_omissions() {
    let parameters = CLIParameters {
        cli_name: String::from("tool"),
        arguments: vec![argument("--in", "IN", None, ""), argument("--out", "OUT", None, "o")],
        options: vec![
            argument("--empty", "EMPTY", None, ""),
            argument("--size", "SIZE", None, "3"),
            argument("--blank", "BLANK", None, " "),
        ],
        flags: vec![flag("-a", None, false), flag("-b", None, true), flag("-c", None, true)],
        cli_lib: CLILib::Clap,
    };
    let expected = Invocation {
        program: String::from("tool"),
        arguments: tokens(&["--size", "3", "--blank", " ", "-b", "-c", "--in", "", "--out", "o"]),
    };
    assert_eq!(convert_to_cli(&parameters), expected);
    assert_eq!(convert_to_clap_cli(&parameters), expected);
}

#[test]
fn test_synthesis_of_nothing() {
    let parameters = CLIParameters { cli_name: String::from("tool"), ..CLIParameters::default() };
    assert_eq!(
        convert_to_cli(&parameters),
        Invocation { program: String::from("tool"), arguments: Vec::new() }
    );
}

#[test]
fn test_greeter_session() {
    let mut model = Model::new(parse_help_string(GREETER_HELP).unwrap());
    for ch in "Ferris".chars() {
        update(&mut model, Message::TextEdit(ch));
    }
    update(&mut model, Message::Move(Direction::Right));
    assert_eq!(model.current_section, Section::Flags);
    update(&mut model, Message::Toggle);
    update(&mut model, Message::Move(Direction::Right));
    assert_eq!(model.current_section, Section::Options);
    update(&mut model, Message::RemoveText);
    update(&mut model, Message::TextEdit('5'));
    update(&mut model, Message::Run);

    assert!(model.run);
    assert_eq!(
        convert_to_cli(&model.parameters),
        Invocation {
            program: String::from("greeter.exe"),
            arguments: tokens(&["--count", "5", "--caps", "--first-name", "Ferris"]),
        }
    );
}

#[test]
fn test_step_without_event() {
    let mut model = model_of(1, 1, 1);
    let before = format!("{:?}", model);
    assert_eq!(step(&mut model, None), Step::Continue);
    assert_eq!(format!("{:?}", model), before);
}

#[test]
fn test_step_applies_the_message() {
    let mut model = model_of(2, 1, 1);
    assert_eq!(step(&mut model, press(KeyCode::Down)), Step::Continue);
    assert_eq!(model.current_key_index, 1);
    assert_eq!(step(&mut model, press(KeyCode::Char('a'))), Step::Continue);
    assert_eq!(model.parameters.arguments[1].value, "a");
    assert_eq!(step(&mut model, press(KeyCode::Other)), Step::Continue);
    let release = KeyEvent::new_with_kind(KeyCode::Up, KeyModifiers::empty(), KeyEventKind::Release);
    assert_eq!(step(&mut model, Some(release)), Step::Continue);
    assert_eq!(model.current_key_index, 1);
}

#[test]
fn test_step_submits() {
    let mut model = model_of(1, 1, 1);
    assert_eq!(
        step(&mut model, press(KeyCode::Enter)),
        Step::Submit(Invocation {
            program: String::from("tool"),
            arguments: tokens(&["--opt0", "x", "--arg0", ""]),
        })
    );
    assert!(model.run);
}

#[test]
fn test_step_exits() {
    let mut model = model_of(1, 1, 1);
    let quit = KeyEvent::new_with_kind(
        KeyCode::Char('q'),
        KeyModifiers::control(),
        KeyEventKind::Press,
    );
    assert_eq!(step(&mut model, Some(quit)), Step::Exit);
    assert!(model.exit);
    assert!(!model.run);
}

#[test]
fn test_step_submit_comes_before_exit() {
    let mut model = model_of(1, 0, 0);
    model.run = true;
    model.exit = true;
    assert_eq!(
        step(&mut model, None),
        Step::Submit(Invocation {
            program: String::from("tool"),
            arguments: tokens(&["--arg0", ""]),
        })
    );
}
