//! The grammar of a help text, the classification of the parameters that it
//! lists, and the synthesis of an invocation from the edited parameters.

use crate::cli::Invocation;
use crate::pattern::{all_matches, captures, find_all, named_captures, texts};
use crate::text::{
    chars_of, find, first_occurrence, lines, lines_of, occurs, starts_with,
    strip_leading, to_uppercase, trim, trim_start_matches, trimmed, uppercase,
};
use vstd::prelude::*;

verus! {

/// The library whose help layout a text follows.
#[derive(Debug, Default, PartialEq, Eq, Clone, Copy, Structural)]
pub enum CLILib {
    #[default]
    Clap,
}

/// A parameter that takes a value: a required argument or an option.
#[derive(Debug, Default, PartialEq, Eq)]
pub struct CLIArgument {
    pub key: String,
    pub name: String,
    pub description: Option<String>,
    pub value: String,
}

/// A parameter that is either given or not.
#[derive(Debug, Default, PartialEq, Eq)]
pub struct CLIFlag {
    pub key: String,
    pub description: Option<String>,
    pub set: bool,
}

/// What one line of the options block describes.
#[derive(Debug, PartialEq, Eq)]
pub enum CLIParameter {
    Argument(CLIArgument),
    Flag(CLIFlag),
}

/// The parameters of a program, each kind in the order of the help text.
#[derive(Debug, Default, PartialEq, Eq)]
pub struct CLIParameters {
    pub cli_name: String,
    pub arguments: Vec<CLIArgument>,
    pub options: Vec<CLIArgument>,
    pub flags: Vec<CLIFlag>,
    pub cli_lib: CLILib,
}

/// A value-bearing parameter as plain text.
pub struct ArgumentView {
    pub key: Seq<char>,
    pub name: Seq<char>,
    pub description: Option<Seq<char>>,
    pub value: Seq<char>,
}

/// A flag as plain text.
pub struct FlagView {
    pub key: Seq<char>,
    pub description: Option<Seq<char>>,
    pub set: bool,
}

/// A parsed line as plain text.
pub enum ParameterView {
    Argument(ArgumentView),
    Flag(FlagView),
}

/// A parameter collection as plain text.
pub struct ParametersView {
    pub cli_name: Seq<char>,
    pub arguments: Seq<ArgumentView>,
    pub options: Seq<ArgumentView>,
    pub flags: Seq<FlagView>,
    pub cli_lib: CLILib,
}

impl View for CLIArgument {
    type V = ArgumentView;

    open spec fn view(&self) -> ArgumentView {
        ArgumentView {
            key: self.key@,
            name: self.name@,
            description: self.description.deep_view(),
            value: self.value@,
        }
    }
}

impl DeepView for CLIArgument {
    type V = ArgumentView;

    open spec fn deep_view(&self) -> ArgumentView {
        self.view()
    }
}

impl View for CLIFlag {
    type V = FlagView;

    open spec fn view(&self) -> FlagView {
        FlagView { key: self.key@, description: self.description.deep_view(), set: self.set }
    }
}

impl DeepView for CLIFlag {
    type V = FlagView;

    open spec fn deep_view(&self) -> FlagView {
        self.view()
    }
}

impl View for CLIParameter {
    type V = ParameterView;

    open spec fn view(&self) -> ParameterView {
        match self {
            CLIParameter::Argument(argument) => ParameterView::Argument(argument@),
            CLIParameter::Flag(flag) => ParameterView::Flag(flag@),
        }
    }
}

impl DeepView for CLIParameter {
    type V = ParameterView;

    open spec fn deep_view(&self) -> ParameterView {
        self.view()
    }
}

impl View for CLIParameters {
    type V = ParametersView;

    open spec fn view(&self) -> ParametersView {
        ParametersView {
            cli_name: self.cli_name@,
            arguments: self.arguments.deep_view(),
            options: self.options.deep_view(),
            flags: self.flags.deep_view(),
            cli_lib: self.cli_lib,
        }
    }
}

impl DeepView for CLIParameters {
    type V = ParametersView;

    open spec fn deep_view(&self) -> ParametersView {
        self.view()
    }
}

impl CLIFlag {
    /// The name under which the flag is shown: its key without the leading
    /// dashes, in upper case.
    pub fn name(&self) -> (r: String)
        ensures
            r@ == uppercase(strip_leading(self.key@, '-')),
    {
        to_uppercase(trim_start_matches(self.key.as_str(), '-'))
    }
}

/// The marker that opens the options block.
pub const OPTIONS_MARKER: &'static str = "Options:";

/// The marker that opens the usage line.
pub const USAGE_MARKER: &'static str = "Usage:";

/// The shape of one line of the options block: a short key (a dash and one
/// word character), a long key (two dashes and one or more word segments
/// joined by dashes), a display name in angle brackets, a description of
/// words and spaces, and a default in square brackets. Each part may be
/// missing.
pub const OPTION_LINE_PATTERN: &'static str =
    r"[ ]*(?P<short_key>-\w)?[ ,]*(?P<long_key>--\w+(?:-\w+)*)?\s*(<(?P<name>\w+)>)?(?P<description>[ \w]+)?(\[default: (?P<value>.+)\])?";

/// The shape of the program name on the usage line: what follows the usage
/// marker and any white space, up to the next white space.
pub const CLI_NAME_PATTERN: &'static str = r"Usage:\s*(?P<cli_name>\S+)";

/// The shape of a key on the usage line: one or two dashes and one or more
/// word segments joined by dashes, where no word character stands directly
/// before the first dash.
pub const KEY_PATTERN: &'static str = r"\B--?\w+(?:-\w+)*";

/// What the groups of the option-line pattern hold for one line.
#[derive(Debug, Default, PartialEq, Eq)]
pub struct OptionLineCaptures {
    pub short_key: Option<String>,
    pub long_key: Option<String>,
    pub name: Option<String>,
    pub description: Option<String>,
    pub value: Option<String>,
}

/// The captures of an option line as plain text.
pub struct CapturesView {
    pub short_key: Option<Seq<char>>,
    pub long_key: Option<Seq<char>>,
    pub name: Option<Seq<char>>,
    pub description: Option<Seq<char>>,
    pub value: Option<Seq<char>>,
}

impl View for OptionLineCaptures {
    type V = CapturesView;

    open spec fn view(&self) -> CapturesView {
        CapturesView {
            short_key: self.short_key.deep_view(),
            long_key: self.long_key.deep_view(),
            name: self.name.deep_view(),
            description: self.description.deep_view(),
            value: self.value.deep_view(),
        }
    }
}

/// The names of the groups of the option-line pattern, in the order of the
/// fields of `OptionLineCaptures`.
pub open spec fn option_line_groups() -> Seq<Seq<char>> {
    seq!["short_key"@, "long_key"@, "name"@, "description"@, "value"@]
}

/// The key by which a parameter is invoked: the long key where the line has
/// one, else the short key.
pub open spec fn canonical_key(caps: CapturesView) -> Option<Seq<char>> {
    if caps.long_key is Some {
        caps.long_key
    } else {
        caps.short_key
    }
}

/// The description of a line: the words that the line holds for it, without
/// the white space around them. A line that holds no word for it has none.
pub open spec fn description_of(caps: CapturesView) -> Option<Seq<char>> {
    match caps.description {
        Some(text) => if trimmed(text).len() == 0 {
            None
        } else {
            Some(trimmed(text))
        },
        None => None,
    }
}

/// The parameter that the captures of one line describe. A line without a
/// key describes none. A line with a display name describes a value-bearing
/// parameter, whose value is the default that the line gives, or empty; a
/// line without one describes a flag that is not set.
pub open spec fn parameter_of(caps: CapturesView) -> Option<ParameterView> {
    match canonical_key(caps) {
        None => None,
        Some(key) => match caps.name {
            Some(name) => Some(
                ParameterView::Argument(
                    ArgumentView {
                        key,
                        name,
                        description: description_of(caps),
                        value: match caps.value {
                            Some(value) => value,
                            None => Seq::empty(),
                        },
                    },
                ),
            ),
            None => Some(
                ParameterView::Flag(
                    FlagView { key, description: description_of(caps), set: false },
                ),
            ),
        },
    }
}

/// The captures that a list of five groups stands for.
pub open spec fn captures_of(groups: Seq<Option<Seq<char>>>) -> CapturesView {
    CapturesView {
        short_key: groups[0],
        long_key: groups[1],
        name: groups[2],
        description: groups[3],
        value: groups[4],
    }
}

/// What the groups of the option-line pattern hold for `line`, where the
/// pattern matches in it.
pub open spec fn line_captures(line: Seq<char>) -> Option<CapturesView> {
    match named_captures(OPTION_LINE_PATTERN@, option_line_groups(), line) {
        Some(groups) => Some(captures_of(groups)),
        None => None,
    }
}

/// The parameter that one line of the options block describes.
pub open spec fn option_line_parameter(line: Seq<char>) -> Option<ParameterView> {
    match line_captures(line) {
        Some(caps) => parameter_of(caps),
        None => None,
    }
}

/// The key of a parsed line.
pub open spec fn parameter_key(parameter: ParameterView) -> Seq<char> {
    match parameter {
        ParameterView::Argument(argument) => argument.key,
        ParameterView::Flag(flag) => flag.key,
    }
}

/// A line with a long key and a short key describes a parameter, and the
/// key of that parameter is the long key.
pub proof fn lemma_long_key_is_canonical(line: Seq<char>)
    requires
        line_captures(line) matches Some(caps) && caps.long_key is Some && caps.short_key is Some,
    ensures
        option_line_parameter(line) matches Some(parameter) && Some(parameter_key(parameter))
            == line_captures(line).unwrap().long_key,
{
}

/// A line with a short key alone describes a parameter, and the key of that
/// parameter is the short key.
pub proof fn lemma_short_key_alone_is_canonical(line: Seq<char>)
    requires
        line_captures(line) matches Some(caps) && caps.long_key is None && caps.short_key is Some,
    ensures
        option_line_parameter(line) matches Some(parameter) && Some(parameter_key(parameter))
            == line_captures(line).unwrap().short_key,
{
}

/// A line describes a parameter exactly where the pattern matches in it with
/// a key.
pub proof fn lemma_line_needs_key(line: Seq<char>)
    ensures
        option_line_parameter(line) is Some <==> (line_captures(line) matches Some(caps)
            && canonical_key(caps) is Some),
{
}

/// A line that describes a parameter describes a value-bearing parameter
/// where it has a display name, and a flag where it has none.
pub proof fn lemma_display_name_decides_kind(line: Seq<char>)
    requires
        option_line_parameter(line) is Some,
    ensures
        line_captures(line).unwrap().name is Some ==> option_line_parameter(line).unwrap()
            is Argument,
        line_captures(line).unwrap().name is None ==> option_line_parameter(line).unwrap() is Flag,
{
}

/// Builds the parameter that the captures of one line describe.
pub fn parameter_from_captures(caps: OptionLineCaptures) -> (r: Option<CLIParameter>)
    ensures
        r.deep_view() == parameter_of(caps@),
{
    let OptionLineCaptures { short_key, long_key, name, description, value } = caps;
    let key = match long_key {
        Some(long) => long,
        None => match short_key {
            Some(short) => short,
            None => {
                return None;
            },
        },
    };
    let description = match description {
        Some(text) => {
            let words = trim(text.as_str());
            if words.is_empty() {
                None
            } else {
                Some(words.to_owned())
            }
        },
        None => None,
    };
    match name {
        Some(name) => {
            let value = match value {
                Some(value) => value,
                None => String::new(),
            };
            Some(CLIParameter::Argument(CLIArgument { key, name, description, value }))
        },
        None => Some(CLIParameter::Flag(CLIFlag { key, description, set: false })),
    }
}

/// Takes the last group off a list of groups.
fn take_last(groups: &mut Vec<Option<String>>) -> (r: Option<String>)
    requires
        old(groups).len() > 0,
    ensures
        r.deep_view() == old(groups).deep_view().last(),
        final(groups).deep_view() == old(groups).deep_view().drop_last(),
        final(groups).len() == old(groups).len() - 1,
{
    let r = match groups.pop() {
        Some(group) => group,
        None => None,
    };
    proof {
        assert(groups.deep_view() =~= old(groups).deep_view().drop_last());
    }
    r
}

/// Parses one line of the options block.
///
/// A line has one of two shapes:
/// - value-bearing: `-n, --name <NAME> Name of the person to greet [default: Me]`
/// - flag: `-h, --help Print help`
pub fn parse_clap_option_line(option_line: &str) -> (r: Option<CLIParameter>)
    ensures
        r.deep_view() == option_line_parameter(option_line@),
{
    let names: Vec<&str> = vec!["short_key", "long_key", "name", "description", "value"];
    proof {
        assert(texts(names@) =~= option_line_groups());
    }
    match captures(OPTION_LINE_PATTERN, &names, option_line) {
        None => None,
        Some(mut groups) => {
            let ghost all = groups.deep_view();
            let value = take_last(&mut groups);
            let description = take_last(&mut groups);
            let name = take_last(&mut groups);
            let long_key = take_last(&mut groups);
            let short_key = take_last(&mut groups);
            let caps = OptionLineCaptures { short_key, long_key, name, description, value };
            proof {
                assert(caps@ == captures_of(all));
            }
            parameter_from_captures(caps)
        },
    }
}

/// The options block of a help text: what begins at the first occurrence of
/// the options marker and runs to the end of the text.
pub open spec fn options_block(help: Seq<char>) -> Option<Seq<char>> {
    if occurs(help, OPTIONS_MARKER@) {
        Some(help.skip(first_occurrence(help, OPTIONS_MARKER@)))
    } else {
        None
    }
}

/// The first of `lines` that begins with `prefix`.
pub open spec fn first_with_prefix(lines: Seq<Seq<char>>, prefix: Seq<char>) -> Option<Seq<char>>
    decreases lines.len(),
{
    if lines.len() == 0 {
        None
    } else if prefix.is_prefix_of(lines[0]) {
        Some(lines[0])
    } else {
        first_with_prefix(lines.drop_first(), prefix)
    }
}

/// The usage line of a help text: its first line that begins with the usage
/// marker.
pub open spec fn usage_line(help: Seq<char>) -> Option<Seq<char>> {
    first_with_prefix(lines_of(help), USAGE_MARKER@)
}

/// Retrieves the options block of a help text, e.g.
///
/// ```text
/// Options:
///     -n, --name <NAME> Name of the person to greet
/// ```
pub fn retrieve_clap_option_explanation<'a>(help_string: &'a str) -> (r: Option<&'a str>)
    ensures
        r.deep_view() == options_block(help_string@),
{
    let text = chars_of(help_string);
    let marker = chars_of(OPTIONS_MARKER);
    match find(&text, &marker) {
        Some(option_index) => Some(help_string.substring_char(option_index, text.len())),
        None => None,
    }
}

/// Retrieves the usage line of a help text, e.g.
/// `Usage: clap_example.exe [OPTIONS] --name <NAME>`
pub fn retrieve_clap_usage_explanation<'a>(help_string: &'a str) -> (r: Option<&'a str>)
    ensures
        r.deep_view() == usage_line(help_string@),
{
    let all = lines(help_string);
    let marker = chars_of(USAGE_MARKER);
    let mut i: usize = 0;
    proof {
        assert(all.deep_view().skip(0) =~= all.deep_view());
    }
    while i < all.len()
        invariant
            i <= all.len(),
            marker@ == USAGE_MARKER@,
            all.deep_view() == lines_of(help_string@),
            usage_line(help_string@) == first_with_prefix(
                all.deep_view().skip(i as int),
                USAGE_MARKER@,
            ),
        decreases all.len() - i,
    {
        let line: &'a str = all[i];
        let text = chars_of(line);
        proof {
            let rest = all.deep_view().skip(i as int);
            assert(rest[0] == line@);
            assert(rest.drop_first() =~= all.deep_view().skip(i + 1));
        }
        if starts_with(&text, &marker) {
            return Some(line);
        }
        i += 1;
    }
    None
}

/// The function that parses one line, as a value.
pub open spec fn line_parser() -> spec_fn(Seq<char>) -> Option<ParameterView> {
    |line: Seq<char>| option_line_parameter(line)
}

/// The lines of an options block that may describe a parameter: all but the
/// first, which holds the marker.
pub open spec fn option_lines(block: Seq<char>) -> Seq<Seq<char>> {
    let all = lines_of(block);
    if all.len() > 0 {
        all.skip(1)
    } else {
        all
    }
}

/// The parameters that the lines of an options block describe, in the order
/// of the lines; a line that describes none is passed over. A block that
/// describes no parameter at all has no result.
pub open spec fn option_parameters(block: Seq<char>) -> Option<Seq<ParameterView>> {
    let parameters = option_lines(block).filter_map(line_parser());
    if parameters.len() == 0 {
        None
    } else {
        Some(parameters)
    }
}

/// Parses the options block of a help text.
pub fn parse_clap_option_explanation(option_string: &str) -> (r: Option<Vec<CLIParameter>>)
    ensures
        r.deep_view() == option_parameters(option_string@),
{
    let all = lines(option_string);
    let mut parsed_options: Vec<CLIParameter> = Vec::new();
    if all.len() == 0 {
        return None;
    }
    let ghost body = option_lines(option_string@);
    let mut i: usize = 1;
    proof {
        assert(body.take(0).filter_map(line_parser()) =~= parsed_options.deep_view());
    }
    while i < all.len()
        invariant
            1 <= i <= all.len(),
            all.deep_view() == lines_of(option_string@),
            body == all.deep_view().skip(1),
            parsed_options.deep_view() == body.take(i - 1).filter_map(line_parser()),
        decreases all.len() - i,
    {
        let ghost before = parsed_options.deep_view();
        proof {
            body.lemma_filter_map_take_succ(line_parser(), i - 1);
            assert(body[i - 1] == all[i as int]@);
        }
        match parse_clap_option_line(all[i]) {
            Some(parameter) => {
                parsed_options.push(parameter);
                proof {
                    assert(parsed_options.deep_view() =~= before.push(parameter@));
                    assert(before.push(parameter@) =~= before + seq![parameter@]);
                }
            },
            None => {
                proof {
                    assert(before + Seq::<ParameterView>::empty() =~= before);
                }
            },
        }
        i += 1;
    }
    proof {
        assert(body.take(body.len() as int) =~= body);
    }
    if parsed_options.len() == 0 {
        None
    } else {
        Some(parsed_options)
    }
}

/// The name of the group that holds the program name.
pub open spec fn cli_name_groups() -> Seq<Seq<char>> {
    seq!["cli_name"@]
}

/// The program name that the usage line gives, where it gives one.
pub open spec fn usage_name(usage: Seq<char>) -> Option<Seq<char>> {
    match named_captures(CLI_NAME_PATTERN@, cli_name_groups(), usage) {
        Some(groups) => groups[0],
        None => None,
    }
}

/// The program name and the keys of a usage line, where both searches gave a
/// result.
pub open spec fn usage_parts(name: Option<Seq<char>>, keys: Option<Seq<Seq<char>>>) -> Option<
    (Seq<char>, Seq<Seq<char>>),
> {
    match (name, keys) {
        (Some(name), Some(keys)) => Some((name, keys)),
        _ => None,
    }
}

/// The program name of a usage line and the keys that stand on it, in their
/// order on the line.
pub open spec fn usage_of(usage: Seq<char>) -> Option<(Seq<char>, Seq<Seq<char>>)> {
    usage_parts(usage_name(usage), all_matches(KEY_PATTERN@, usage))
}

/// Puts together what the two searches on a usage line found.
pub fn usage_from_matches(cli_name: Option<String>, keys: Option<Vec<String>>) -> (r: Option<
    (String, Vec<String>),
>)
    ensures
        r.deep_view() == usage_parts(cli_name.deep_view(), keys.deep_view()),
{
    match cli_name {
        Some(cli_name) => match keys {
            Some(keys) => Some((cli_name, keys)),
            None => None,
        },
        None => None,
    }
}

/// Parses the usage line of a help text: the program name, and the keys that
/// tell required arguments from options.
pub fn parse_clap_usage_explanation(usage_string: &str) -> (r: Option<(String, Vec<String>)>)
    ensures
        r.deep_view() == usage_of(usage_string@),
{
    let names: Vec<&str> = vec!["cli_name"];
    proof {
        assert(texts(names@) =~= cli_name_groups());
    }
    let cli_name = match captures(CLI_NAME_PATTERN, &names, usage_string) {
        Some(mut groups) => take_last(&mut groups),
        None => None,
    };
    let keys = find_all(KEY_PATTERN, usage_string);
    usage_from_matches(cli_name, keys)
}

/// A parsed line as a required argument: it bears a value and its key is
/// among `keys`.
pub open spec fn as_argument(parameter: ParameterView, keys: Seq<Seq<char>>) -> Option<
    ArgumentView,
> {
    match parameter {
        ParameterView::Argument(argument) => if keys.contains(argument.key) {
            Some(argument)
        } else {
            None
        },
        ParameterView::Flag(_) => None,
    }
}

/// A parsed line as an option: it bears a value and its key is not among
/// `keys`.
pub open spec fn as_option(parameter: ParameterView, keys: Seq<Seq<char>>) -> Option<
    ArgumentView,
> {
    match parameter {
        ParameterView::Argument(argument) => if keys.contains(argument.key) {
            None
        } else {
            Some(argument)
        },
        ParameterView::Flag(_) => None,
    }
}

/// A parsed line as a flag: it bears no value.
pub open spec fn as_flag(parameter: ParameterView) -> Option<FlagView> {
    match parameter {
        ParameterView::Argument(_) => None,
        ParameterView::Flag(flag) => Some(flag),
    }
}

/// The required arguments among `parameters`, in their order.
pub open spec fn arguments_among(parameters: Seq<ParameterView>, keys: Seq<Seq<char>>) -> Seq<
    ArgumentView,
> {
    parameters.filter_map(|parameter: ParameterView| as_argument(parameter, keys))
}

/// The options among `parameters`, in their order.
pub open spec fn options_among(parameters: Seq<ParameterView>, keys: Seq<Seq<char>>) -> Seq<
    ArgumentView,
> {
    parameters.filter_map(|parameter: ParameterView| as_option(parameter, keys))
}

/// The flags among `parameters`, in their order.
pub open spec fn flags_among(parameters: Seq<ParameterView>) -> Seq<FlagView> {
    parameters.filter_map(|parameter: ParameterView| as_flag(parameter))
}

/// The parameter collection of a program called `cli_name` whose usage line
/// holds `keys` and whose options block describes `parameters`.
pub open spec fn classified(
    cli_name: Seq<char>,
    keys: Seq<Seq<char>>,
    parameters: Seq<ParameterView>,
) -> ParametersView {
    ParametersView {
        cli_name,
        arguments: arguments_among(parameters, keys),
        options: options_among(parameters, keys),
        flags: flags_among(parameters),
        cli_lib: CLILib::Clap,
    }
}

/// Whether `key` is among `keys`.
pub fn contains_key(keys: &Vec<String>, key: &String) -> (r: bool)
    ensures
        r == keys.deep_view().contains(key@),
{
    let mut i: usize = 0;
    while i < keys.len()
        invariant
            i <= keys.len(),
            forall|j: int| 0 <= j < i ==> keys.deep_view()[j] != key@,
        decreases keys.len() - i,
    {
        if keys[i] == *key {
            proof {
                assert(keys.deep_view()[i as int] == key@);
            }
            return true;
        }
        i += 1;
    }
    false
}

/// Sorts parsed lines into required arguments, options and flags.
pub fn classify(cli_name: String, argument_keys: &Vec<String>, parameters: Vec<CLIParameter>) -> (r:
    CLIParameters)
    ensures
        r@ == classified(cli_name@, argument_keys.deep_view(), parameters.deep_view()),
{
    let ghost keys = argument_keys.deep_view();
    let ghost all = parameters.deep_view();
    let mut arguments: Vec<CLIArgument> = Vec::new();
    let mut options: Vec<CLIArgument> = Vec::new();
    let mut flags: Vec<CLIFlag> = Vec::new();
    proof {
        assert(arguments.deep_view() =~= arguments_among(all.take(0), keys));
        assert(options.deep_view() =~= options_among(all.take(0), keys));
        assert(flags.deep_view() =~= flags_among(all.take(0)));
    }
    for parameter in it: parameters
        invariant
            keys == argument_keys.deep_view(),
            all.len() == it.seq().len(),
            forall|j: int| 0 <= j < all.len() ==> all[j] == #[trigger] it.seq()[j]@,
            arguments.deep_view() == arguments_among(all.take(it.index() as int), keys),
            options.deep_view() == options_among(all.take(it.index() as int), keys),
            flags.deep_view() == flags_among(all.take(it.index() as int)),
    {
        let ghost i = it.index() as int;
        let ghost old_arguments = arguments.deep_view();
        let ghost old_options = options.deep_view();
        let ghost old_flags = flags.deep_view();
        proof {
            assert(all[i] == parameter@);
            all.lemma_filter_map_take_succ(|p: ParameterView| as_argument(p, keys), i);
            all.lemma_filter_map_take_succ(|p: ParameterView| as_option(p, keys), i);
            all.lemma_filter_map_take_succ(|p: ParameterView| as_flag(p), i);
        }
        match parameter {
            CLIParameter::Argument(argument) => {
                if contains_key(argument_keys, &argument.key) {
                    arguments.push(argument);
                    proof {
                        assert(arguments.deep_view() =~= old_arguments + seq![argument@]);
                        assert(old_options + Seq::<ArgumentView>::empty() =~= old_options);
                    }
                } else {
                    options.push(argument);
                    proof {
                        assert(options.deep_view() =~= old_options + seq![argument@]);
                        assert(old_arguments + Seq::<ArgumentView>::empty() =~= old_arguments);
                    }
                }
                proof {
                    assert(old_flags + Seq::<FlagView>::empty() =~= old_flags);
                }
            },
            CLIParameter::Flag(flag) => {
                flags.push(flag);
                proof {
                    assert(flags.deep_view() =~= old_flags + seq![flag@]);
                    assert(old_arguments + Seq::<ArgumentView>::empty() =~= old_arguments);
                    assert(old_options + Seq::<ArgumentView>::empty() =~= old_options);
                }
            },
        }
    }
    proof {
        assert(all.take(all.len() as int) =~= all);
    }
    CLIParameters { cli_name, arguments, options, flags, cli_lib: CLILib::Clap }
}

/// The parameter collection that a help text in the clap layout describes.
/// There is none where the text has no options block, where the block
/// describes no parameter, where the text has no usage line, or where the
/// usage line gives no program name.
pub open spec fn clap_parameters(help: Seq<char>) -> Option<ParametersView> {
    match options_block(help) {
        None => None,
        Some(block) => match option_parameters(block) {
            None => None,
            Some(parameters) => match usage_line(help) {
                None => None,
                Some(usage) => match usage_of(usage) {
                    None => None,
                    Some((cli_name, keys)) => Some(classified(cli_name, keys, parameters)),
                },
            },
        },
    }
}

/// The parameter collection that a help text describes, in the first layout
/// that applies to it. The clap layout is the only one.
pub open spec fn help_parameters(help: Seq<char>) -> Option<ParametersView> {
    clap_parameters(help)
}

/// Parses a help text in the clap layout.
pub fn parse_clap_help_string(help_string: &str) -> (r: Option<CLIParameters>)
    ensures
        r.deep_view() == clap_parameters(help_string@),
{
    let option_explanation = match retrieve_clap_option_explanation(help_string) {
        Some(option_explanation) => option_explanation,
        None => {
            return None;
        },
    };
    let parameters = match parse_clap_option_explanation(option_explanation) {
        Some(parameters) => parameters,
        None => {
            return None;
        },
    };
    let usage_explanation = match retrieve_clap_usage_explanation(help_string) {
        Some(usage_explanation) => usage_explanation,
        None => {
            return None;
        },
    };
    match parse_clap_usage_explanation(usage_explanation) {
        Some((cli_name, argument_keys)) => Some(classify(cli_name, &argument_keys, parameters)),
        None => None,
    }
}

/// Parses the help text of a program to determine its arguments, options
/// and flags.
pub fn parse_help_string(help_string: &str) -> (r: Option<CLIParameters>)
    ensures
        r.deep_view() == help_parameters(help_string@),
        !occurs(help_string@, OPTIONS_MARKER@) ==> r is None,
{
    parse_clap_help_string(help_string)
}

/// The tokens by which an option is passed: none where its value is empty.
pub open spec fn option_tokens(option: ArgumentView) -> Seq<Seq<char>> {
    if option.value.len() == 0 {
        Seq::empty()
    } else {
        seq![option.key, option.value]
    }
}

/// The tokens by which a flag is passed: none where it is not set.
pub open spec fn flag_tokens(flag: FlagView) -> Seq<Seq<char>> {
    if flag.set {
        seq![flag.key]
    } else {
        Seq::empty()
    }
}

/// The tokens by which a required argument is passed, whatever its value.
pub open spec fn argument_tokens(argument: ArgumentView) -> Seq<Seq<char>> {
    seq![argument.key, argument.value]
}

/// The tokens of all options, in their order.
pub open spec fn all_option_tokens(options: Seq<ArgumentView>) -> Seq<Seq<char>> {
    options.map_values(|option: ArgumentView| option_tokens(option)).flatten()
}

/// The tokens of all flags, in their order.
pub open spec fn all_flag_tokens(flags: Seq<FlagView>) -> Seq<Seq<char>> {
    flags.map_values(|flag: FlagView| flag_tokens(flag)).flatten()
}

/// The tokens of all required arguments, in their order.
pub open spec fn all_argument_tokens(arguments: Seq<ArgumentView>) -> Seq<Seq<char>> {
    arguments.map_values(|argument: ArgumentView| argument_tokens(argument)).flatten()
}

/// The tokens of an invocation: first the options, then the flags, then the
/// required arguments.
pub open spec fn invocation_tokens(parameters: ParametersView) -> Seq<Seq<char>> {
    all_option_tokens(parameters.options) + all_flag_tokens(parameters.flags)
        + all_argument_tokens(parameters.arguments)
}

/// Converts the parameters to the invocation that passes them.
pub fn convert_to_cli(parameters: &CLIParameters) -> (command: Invocation)
    ensures
        command@.program == parameters@.cli_name,
        command@.arguments == invocation_tokens(parameters@),
{
    match parameters.cli_lib {
        CLILib::Clap => convert_to_clap_cli(parameters),
    }
}

/// Converts the parameters to an invocation in the clap layout.
pub fn convert_to_clap_cli(parameters: &CLIParameters) -> (command: Invocation)
    ensures
        command@.program == parameters@.cli_name,
        command@.arguments == invocation_tokens(parameters@),
{
    let ghost options = parameters@.options;
    let ghost flags = parameters@.flags;
    let ghost arguments = parameters@.arguments;
    let mut tokens: Vec<String> = Vec::new();
    let mut i: usize = 0;
    proof {
        assert(options.take(0).map_values(|option: ArgumentView| option_tokens(option))
            =~= Seq::<Seq<Seq<char>>>::empty());
        assert(tokens.deep_view() =~= all_option_tokens(options.take(0)));
    }
    while i < parameters.options.len()
        invariant
            i <= parameters.options.len(),
            options == parameters.options.deep_view(),
            tokens.deep_view() == all_option_tokens(options.take(i as int)),
        decreases parameters.options.len() - i,
    {
        let option = &parameters.options[i];
        let ghost before = tokens.deep_view();
        proof {
            lemma_tokens_take_succ(options, |o: ArgumentView| option_tokens(o), i as int);
            assert(options[i as int] == option@);
        }
        if !option.value.as_str().is_empty() {
            tokens.push(option.key.clone());
            tokens.push(option.value.clone());
            proof {
                assert(tokens.deep_view() =~= before + seq![option.key@, option.value@]);
            }
        } else {
            proof {
                assert(before + Seq::<Seq<char>>::empty() =~= before);
            }
        }
        i += 1;
    }
    proof {
        assert(options.take(options.len() as int) =~= options);
        assert(flags.take(0).map_values(|flag: FlagView| flag_tokens(flag)) =~= Seq::<
            Seq<Seq<char>>,
        >::empty());
        assert(tokens.deep_view() =~= all_option_tokens(options) + all_flag_tokens(flags.take(0)));
    }
    let mut i: usize = 0;
    while i < parameters.flags.len()
        invariant
            i <= parameters.flags.len(),
            flags == parameters.flags.deep_view(),
            tokens.deep_view() == all_option_tokens(options) + all_flag_tokens(
                flags.take(i as int),
            ),
        decreases parameters.flags.len() - i,
    {
        let flag = &parameters.flags[i];
        let ghost before = tokens.deep_view();
        proof {
            lemma_tokens_take_succ(flags, |f: FlagView| flag_tokens(f), i as int);
            assert(flags[i as int] == flag@);
        }
        if flag.set {
            tokens.push(flag.key.clone());
            proof {
                assert(tokens.deep_view() =~= before + seq![flag.key@]);
                assert(before + seq![flag.key@] =~= all_option_tokens(options) + (all_flag_tokens(
                    flags.take(i as int),
                ) + seq![flag.key@]));
            }
        } else {
            proof {
                assert(all_flag_tokens(flags.take(i as int)) + Seq::<Seq<char>>::empty()
                    =~= all_flag_tokens(flags.take(i as int)));
            }
        }
        i += 1;
    }
    proof {
        assert(flags.take(flags.len() as int) =~= flags);
        assert(arguments.take(0).map_values(|argument: ArgumentView| argument_tokens(argument))
            =~= Seq::<Seq<Seq<char>>>::empty());
        assert(tokens.deep_view() =~= all_option_tokens(options) + all_flag_tokens(flags)
            + all_argument_tokens(arguments.take(0)));
    }
    let mut i: usize = 0;
    while i < parameters.arguments.len()
        invariant
            i <= parameters.arguments.len(),
            arguments == parameters.arguments.deep_view(),
            tokens.deep_view() == all_option_tokens(options) + all_flag_tokens(flags)
                + all_argument_tokens(arguments.take(i as int)),
        decreases parameters.arguments.len() - i,
    {
        let argument = &parameters.arguments[i];
        let ghost before = tokens.deep_view();
        proof {
            lemma_tokens_take_succ(arguments, |a: ArgumentView| argument_tokens(a), i as int);
            assert(arguments[i as int] == argument@);
        }
        tokens.push(argument.key.clone());
        tokens.push(argument.value.clone());
        proof {
            assert(tokens.deep_view() =~= before + seq![argument.key@, argument.value@]);
            assert(before + seq![argument.key@, argument.value@] =~= all_option_tokens(options)
                + all_flag_tokens(flags) + (all_argument_tokens(arguments.take(i as int))
                + seq![argument.key@, argument.value@]));
        }
        i += 1;
    }
    proof {
        assert(arguments.take(arguments.len() as int) =~= arguments);
    }
    Invocation { program: parameters.cli_name.clone(), arguments: tokens }
}

/// The tokens of the first `i + 1` items are those of the first `i`,
/// followed by those of item `i`.
proof fn lemma_tokens_take_succ<A>(items: Seq<A>, tokens: spec_fn(A) -> Seq<Seq<char>>, i: int)
    requires
        0 <= i < items.len(),
    ensures
        items.take(i + 1).map_values(tokens).flatten() == items.take(i).map_values(
            tokens,
        ).flatten() + tokens(items[i]),
{
    let mapped = items.take(i).map_values(tokens);
    assert(items.take(i + 1).map_values(tokens) =~= mapped.push(tokens(items[i])));
    mapped.lemma_flatten_push(tokens(items[i]));
}

/// An item that `f` keeps stands in the result of `filter_map`.
proof fn lemma_filter_map_keeps<A, B>(items: Seq<A>, f: spec_fn(A) -> Option<B>, i: int)
    requires
        0 <= i < items.len(),
        f(items[i]) is Some,
    ensures
        items.filter_map(f).contains(f(items[i]).unwrap()),
    decreases items.len(),
{
    let rest = items.drop_last();
    let kept = f(items[i]).unwrap();
    if i == items.len() - 1 {
        let all = rest.filter_map(f) + seq![kept];
        assert(all[all.len() - 1] == kept);
    } else {
        lemma_filter_map_keeps(rest, f, i);
        let j = choose|j: int| 0 <= j < rest.filter_map(f).len() && rest.filter_map(f)[j] == kept;
        assert(items.filter_map(f)[j] == kept);
    }
}

/// Every parsed line goes to exactly one list. One that bears a value is a
/// required argument where its key is among the keys of the usage line, and
/// an option where it is not; one that bears none is a flag.
pub proof fn lemma_classification(
    cli_name: Seq<char>,
    keys: Seq<Seq<char>>,
    parameters: Seq<ParameterView>,
    i: int,
)
    requires
        0 <= i < parameters.len(),
    ensures
        match parameters[i] {
            ParameterView::Argument(argument) => if keys.contains(argument.key) {
                classified(cli_name, keys, parameters).arguments.contains(argument)
            } else {
                classified(cli_name, keys, parameters).options.contains(argument)
            },
            ParameterView::Flag(flag) => classified(cli_name, keys, parameters).flags.contains(
                flag,
            ),
        },
{
    match parameters[i] {
        ParameterView::Argument(argument) => {
            if keys.contains(argument.key) {
                lemma_filter_map_keeps(
                    parameters,
                    |parameter: ParameterView| as_argument(parameter, keys),
                    i,
                );
            } else {
                lemma_filter_map_keeps(
                    parameters,
                    |parameter: ParameterView| as_option(parameter, keys),
                    i,
                );
            }
        },
        ParameterView::Flag(flag) => {
            lemma_filter_map_keeps(parameters, |parameter: ParameterView| as_flag(parameter), i);
        },
    }
}

/// The lists hold nothing else: a required argument is a parsed line that
/// bears a value and whose key is among the keys of the usage line, an
/// option is one whose key is not among them, and a flag is a parsed line
/// that bears no value.
pub proof fn lemma_classified_members(
    cli_name: Seq<char>,
    keys: Seq<Seq<char>>,
    parameters: Seq<ParameterView>,
)
    ensures
        forall|argument: ArgumentView| #[trigger]
            classified(cli_name, keys, parameters).arguments.contains(argument) ==> keys.contains(
                argument.key,
            ) && parameters.contains(ParameterView::Argument(argument)),
        forall|option: ArgumentView| #[trigger]
            classified(cli_name, keys, parameters).options.contains(option) ==> !keys.contains(
                option.key,
            ) && parameters.contains(ParameterView::Argument(option)),
        forall|flag: FlagView| #[trigger]
            classified(cli_name, keys, parameters).flags.contains(flag) ==> parameters.contains(
                ParameterView::Flag(flag),
            ),
{
    assert forall|argument: ArgumentView| #[trigger]
        classified(cli_name, keys, parameters).arguments.contains(
            argument,
        ) implies keys.contains(argument.key) && parameters.contains(
        ParameterView::Argument(argument),
    ) by {
        parameters.lemma_filter_map_contains(
            |parameter: ParameterView| as_argument(parameter, keys),
            argument,
        );
    }
    assert forall|option: ArgumentView| #[trigger]
        classified(cli_name, keys, parameters).options.contains(option) implies !keys.contains(
        option.key,
    ) && parameters.contains(ParameterView::Argument(option)) by {
        parameters.lemma_filter_map_contains(
            |parameter: ParameterView| as_option(parameter, keys),
            option,
        );
    }
    assert forall|flag: FlagView| #[trigger]
        classified(cli_name, keys, parameters).flags.contains(flag) implies parameters.contains(
        ParameterView::Flag(flag),
    ) by {
        parameters.lemma_filter_map_contains(|parameter: ParameterView| as_flag(parameter), flag);
    }
}

/// A help text without the options marker describes no parameter
/// collection.
pub proof fn lemma_no_options_marker(help: Seq<char>)
    requires
        !occurs(help, OPTIONS_MARKER@),
    ensures
        help_parameters(help) is None,
{
}

/// The tokens of a list grow entry by entry: an option adds its key and its
/// value unless its value is empty, a flag adds its key where it is set, and
/// a required argument adds its key and its value whatever the value is.
pub proof fn lemma_tokens_by_entry(
    options: Seq<ArgumentView>,
    option: ArgumentView,
    flags: Seq<FlagView>,
    flag: FlagView,
    arguments: Seq<ArgumentView>,
    argument: ArgumentView,
)
    ensures
        all_option_tokens(Seq::empty()) == Seq::<Seq<char>>::empty(),
        all_flag_tokens(Seq::empty()) == Seq::<Seq<char>>::empty(),
        all_argument_tokens(Seq::empty()) == Seq::<Seq<char>>::empty(),
        all_option_tokens(options.push(option)) == if option.value.len() == 0 {
            all_option_tokens(options)
        } else {
            all_option_tokens(options) + seq![option.key, option.value]
        },
        all_flag_tokens(flags.push(flag)) == if flag.set {
            all_flag_tokens(flags) + seq![flag.key]
        } else {
            all_flag_tokens(flags)
        },
        all_argument_tokens(arguments.push(argument)) == all_argument_tokens(arguments)
            + seq![argument.key, argument.value],
{
    let of_option = |o: ArgumentView| option_tokens(o);
    let of_flag = |f: FlagView| flag_tokens(f);
    let of_argument = |a: ArgumentView| argument_tokens(a);
    assert(Seq::<ArgumentView>::empty().map_values(of_option) =~= Seq::empty());
    assert(Seq::<FlagView>::empty().map_values(of_flag) =~= Seq::empty());
    assert(Seq::<ArgumentView>::empty().map_values(of_argument) =~= Seq::empty());
    assert(options.push(option).map_values(of_option) =~= options.map_values(of_option).push(
        option_tokens(option),
    ));
    options.map_values(of_option).lemma_flatten_push(option_tokens(option));
    assert(flags.push(flag).map_values(of_flag) =~= flags.map_values(of_flag).push(
        flag_tokens(flag),
    ));
    flags.map_values(of_flag).lemma_flatten_push(flag_tokens(flag));
    assert(arguments.push(argument).map_values(of_argument) =~= arguments.map_values(
        of_argument,
    ).push(argument_tokens(argument)));
    arguments.map_values(of_argument).lemma_flatten_push(argument_tokens(argument));
    assert(all_option_tokens(options) + Seq::<Seq<char>>::empty() =~= all_option_tokens(options));
    assert(all_flag_tokens(flags) + Seq::<Seq<char>>::empty() =~= all_flag_tokens(flags));
}

} // verus!
