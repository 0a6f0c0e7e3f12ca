//! The command line: from the argument tokens to a validated configuration.

use vstd::prelude::*;
use vstd::string::*;
use crate::order::Grouping;
use crate::text::chars_of;

verus! {

/// A switch that the command line knows.
#[derive(Clone, Copy, Debug, PartialEq, Eq, Structural)]
pub enum Flag {
    All,
    GroupDirectoriesFirst,
    GroupDirectoriesLast,
    ShowAllColumns,
    ShowPermissions,
    ShowOwner,
    ShowSize,
    ShowDateModified,
    ShowTotal,
    Colors,
    Table,
    Json,
    Help,
    Version,
}

/// In which form the listing is written.
#[derive(Clone, Copy, Debug, PartialEq, Eq, Structural)]
pub enum OutputMode {
    /// One line for each entry.
    Plain,
    /// A bordered table.
    Table,
    /// An array of objects.
    Json,
}

/// Why a command line is refused.
#[derive(Clone, Copy, Debug, PartialEq, Eq, Structural)]
pub enum ParseError {
    /// Directories were asked for both first and last.
    ConflictingGrouping,
    /// Both the table and the JSON form were asked for.
    ConflictingOutput,
}

/// What one run is to do. Of `table` and `json` at most one is set, and of
/// `group_directories_first` and `group_directories_last` at most one.
#[derive(Clone, Debug, PartialEq, Eq)]
pub struct RunConfig {
    /// List hidden entries too.
    pub all: bool,
    pub group_directories_first: bool,
    pub group_directories_last: bool,
    pub show_permissions: bool,
    pub show_owner: bool,
    pub show_size: bool,
    pub show_date_modified: bool,
    pub show_total: bool,
    pub colors: bool,
    pub table: bool,
    pub json: bool,
    /// The directory to list; `None` stands for the current directory.
    pub directory: Option<String>,
}

/// The mathematical value of a `RunConfig`.
pub struct ConfigModel {
    pub all: bool,
    pub group_directories_first: bool,
    pub group_directories_last: bool,
    pub show_permissions: bool,
    pub show_owner: bool,
    pub show_size: bool,
    pub show_date_modified: bool,
    pub show_total: bool,
    pub colors: bool,
    pub table: bool,
    pub json: bool,
    pub directory: Option<Seq<char>>,
}

impl ConfigModel {
    /// Whether the configuration asks for nothing contradictory.
    pub open spec fn well_formed(self) -> bool {
        &&& !(self.table && self.json)
        &&& !(self.group_directories_first && self.group_directories_last)
    }

    /// The grouping asked for, if any.
    pub open spec fn grouping(self) -> Option<Grouping> {
        if self.group_directories_first {
            Some(Grouping::DirectoriesFirst)
        } else if self.group_directories_last {
            Some(Grouping::DirectoriesLast)
        } else {
            None
        }
    }

    /// The form of the output: plain unless the table or JSON is asked for.
    /// Of a configuration that is not well formed the table counts.
    pub open spec fn mode(self) -> OutputMode {
        if self.table {
            OutputMode::Table
        } else if self.json {
            OutputMode::Json
        } else {
            OutputMode::Plain
        }
    }
}

impl View for RunConfig {
    type V = ConfigModel;

    open spec fn view(&self) -> ConfigModel {
        ConfigModel {
            all: self.all,
            group_directories_first: self.group_directories_first,
            group_directories_last: self.group_directories_last,
            show_permissions: self.show_permissions,
            show_owner: self.show_owner,
            show_size: self.show_size,
            show_date_modified: self.show_date_modified,
            show_total: self.show_total,
            colors: self.colors,
            table: self.table,
            json: self.json,
            directory: match self.directory {
                Some(path) => Some(path@),
                None => None,
            },
        }
    }
}

impl RunConfig {
    /// Whether the configuration asks for nothing contradictory.
    pub fn is_well_formed(&self) -> (b: bool)
        ensures
            b == self@.well_formed(),
    {
        !(self.table && self.json) && !(self.group_directories_first
            && self.group_directories_last)
    }

    /// The grouping asked for, if any.
    pub fn grouping(&self) -> (g: Option<Grouping>)
        ensures
            g == self@.grouping(),
    {
        if self.group_directories_first {
            Some(Grouping::DirectoriesFirst)
        } else if self.group_directories_last {
            Some(Grouping::DirectoriesLast)
        } else {
            None
        }
    }

    /// The form of the output.
    pub fn mode(&self) -> (m: OutputMode)
        ensures
            m == self@.mode(),
    {
        if self.table {
            OutputMode::Table
        } else if self.json {
            OutputMode::Json
        } else {
            OutputMode::Plain
        }
    }
}

/// What a command line asks for.
#[derive(Clone, Debug, PartialEq, Eq)]
pub enum Invocation {
    /// Print the help text, the version, or both, and list nothing.
    Info { help: bool, version: bool },
    /// List a directory.
    List(RunConfig),
}

/// The mathematical value of an `Invocation`.
pub enum InvocationModel {
    Info { help: bool, version: bool },
    List(ConfigModel),
}

impl View for Invocation {
    type V = InvocationModel;

    open spec fn view(&self) -> InvocationModel {
        match self {
            Invocation::Info { help, version } => InvocationModel::Info {
                help: *help,
                version: *version,
            },
            Invocation::List(config) => InvocationModel::List(config@),
        }
    }
}

/// The switch that a long option names, if it names one.
pub open spec fn long_flag(token: Seq<char>) -> Option<Flag> {
    if token == "--all"@ {
        Some(Flag::All)
    } else if token == "--group-directories-first"@ {
        Some(Flag::GroupDirectoriesFirst)
    } else if token == "--group-directories-last"@ {
        Some(Flag::GroupDirectoriesLast)
    } else if token == "--show-all-columns"@ {
        Some(Flag::ShowAllColumns)
    } else if token == "--show-permissions"@ {
        Some(Flag::ShowPermissions)
    } else if token == "--show-owner"@ {
        Some(Flag::ShowOwner)
    } else if token == "--show-size"@ {
        Some(Flag::ShowSize)
    } else if token == "--show-date-modified"@ {
        Some(Flag::ShowDateModified)
    } else if token == "--show-total"@ {
        Some(Flag::ShowTotal)
    } else if token == "--colors"@ {
        Some(Flag::Colors)
    } else if token == "--table"@ {
        Some(Flag::Table)
    } else if token == "--json"@ {
        Some(Flag::Json)
    } else if token == "--help"@ {
        Some(Flag::Help)
    } else if token == "--version"@ {
        Some(Flag::Version)
    } else {
        None
    }
}

/// The switch that a letter behind a single dash names, if it names one.
pub open spec fn short_flag(letter: char) -> Option<Flag> {
    if letter == 'a' {
        Some(Flag::All)
    } else if letter == 'c' {
        Some(Flag::Colors)
    } else if letter == 't' {
        Some(Flag::Table)
    } else if letter == 'j' {
        Some(Flag::Json)
    } else if letter == 'h' {
        Some(Flag::Help)
    } else if letter == 'V' {
        Some(Flag::Version)
    } else {
        None
    }
}

/// Whether the token is an option: a dash with something behind it. Any
/// other token, a single dash too, is a path.
pub open spec fn is_option(token: Seq<char>) -> bool {
    token.len() >= 2 && token[0] == '-'
}

/// Whether the token is a long option: it begins with two dashes.
pub open spec fn is_long_option(token: Seq<char>) -> bool {
    is_option(token) && token[1] == '-'
}

/// Whether the token switches `flag` on: as the long option of that name, or
/// as an option of one dash and letters of which one names it. What an
/// option holds besides is passed over.
pub open spec fn token_gives(token: Seq<char>, flag: Flag) -> bool {
    if is_long_option(token) {
        long_flag(token) == Some(flag)
    } else if is_option(token) {
        exists|i: int| 1 <= i < token.len() && short_flag(#[trigger] token[i]) == Some(flag)
    } else {
        false
    }
}

/// Whether one of the tokens switches `flag` on.
pub open spec fn given(tokens: Seq<Seq<char>>, flag: Flag) -> bool {
    exists|i: int| 0 <= i < tokens.len() && token_gives(#[trigger] tokens[i], flag)
}

/// The first token that is no option, if there is one.
pub open spec fn first_path(tokens: Seq<Seq<char>>) -> Option<Seq<char>>
    decreases tokens.len(),
{
    if tokens.len() == 0 {
        None
    } else if !is_option(tokens[0]) {
        Some(tokens[0])
    } else {
        first_path(tokens.drop_first())
    }
}

/// The configuration that the tokens ask for. `--show-all-columns` switches
/// on the four columns and the total.
pub open spec fn requested(tokens: Seq<Seq<char>>) -> ConfigModel {
    ConfigModel {
        all: given(tokens, Flag::All),
        group_directories_first: given(tokens, Flag::GroupDirectoriesFirst),
        group_directories_last: given(tokens, Flag::GroupDirectoriesLast),
        show_permissions: given(tokens, Flag::ShowPermissions) || given(
            tokens,
            Flag::ShowAllColumns,
        ),
        show_owner: given(tokens, Flag::ShowOwner) || given(tokens, Flag::ShowAllColumns),
        show_size: given(tokens, Flag::ShowSize) || given(tokens, Flag::ShowAllColumns),
        show_date_modified: given(tokens, Flag::ShowDateModified) || given(
            tokens,
            Flag::ShowAllColumns,
        ),
        show_total: given(tokens, Flag::ShowTotal) || given(tokens, Flag::ShowAllColumns),
        colors: given(tokens, Flag::Colors),
        table: given(tokens, Flag::Table),
        json: given(tokens, Flag::Json),
        directory: first_path(tokens),
    }
}

/// What the tokens of a command line, without the program's name, ask for.
/// Contradictory switches are refused, the grouping before the output form.
/// Otherwise a request for help or for the version overrides the listing.
pub open spec fn parse_outcome(tokens: Seq<Seq<char>>) -> Result<InvocationModel, ParseError> {
    if given(tokens, Flag::GroupDirectoriesFirst) && given(tokens, Flag::GroupDirectoriesLast) {
        Err(ParseError::ConflictingGrouping)
    } else if given(tokens, Flag::Table) && given(tokens, Flag::Json) {
        Err(ParseError::ConflictingOutput)
    } else if given(tokens, Flag::Help) || given(tokens, Flag::Version) {
        Ok(
            InvocationModel::Info {
                help: given(tokens, Flag::Help),
                version: given(tokens, Flag::Version),
            },
        )
    } else {
        Ok(InvocationModel::List(requested(tokens)))
    }
}

/// A command line that asks for the table and for JSON is refused, whatever
/// else it holds.
pub proof fn law_table_and_json_refused(tokens: Seq<Seq<char>>)
    requires
        given(tokens, Flag::Table),
        given(tokens, Flag::Json),
    ensures
        parse_outcome(tokens) is Err,
{
}

/// A command line that asks for directories first and for directories last
/// is refused, whatever else it holds.
pub proof fn law_both_groupings_refused(tokens: Seq<Seq<char>>)
    requires
        given(tokens, Flag::GroupDirectoriesFirst),
        given(tokens, Flag::GroupDirectoriesLast),
    ensures
        parse_outcome(tokens) == Err::<InvocationModel, ParseError>(
            ParseError::ConflictingGrouping,
        ),
{
}

/// Every configuration that comes out of a command line is well formed.
pub proof fn law_parsed_config_well_formed(tokens: Seq<Seq<char>>)
    ensures
        parse_outcome(tokens) matches Ok(InvocationModel::List(config)) ==> config.well_formed(),
{
}

/// The switches seen so far on a command line.
#[derive(Clone, Copy)]
struct Seen {
    all: bool,
    group_directories_first: bool,
    group_directories_last: bool,
    show_all_columns: bool,
    show_permissions: bool,
    show_owner: bool,
    show_size: bool,
    show_date_modified: bool,
    show_total: bool,
    colors: bool,
    table: bool,
    json: bool,
    help: bool,
    version: bool,
}

impl Seen {
    spec fn has(self, flag: Flag) -> bool {
        match flag {
            Flag::All => self.all,
            Flag::GroupDirectoriesFirst => self.group_directories_first,
            Flag::GroupDirectoriesLast => self.group_directories_last,
            Flag::ShowAllColumns => self.show_all_columns,
            Flag::ShowPermissions => self.show_permissions,
            Flag::ShowOwner => self.show_owner,
            Flag::ShowSize => self.show_size,
            Flag::ShowDateModified => self.show_date_modified,
            Flag::ShowTotal => self.show_total,
            Flag::Colors => self.colors,
            Flag::Table => self.table,
            Flag::Json => self.json,
            Flag::Help => self.help,
            Flag::Version => self.version,
        }
    }

    fn nothing() -> (seen: Seen)
        ensures
            forall|flag: Flag| !seen.has(flag),
    {
        Seen {
            all: false,
            group_directories_first: false,
            group_directories_last: false,
            show_all_columns: false,
            show_permissions: false,
            show_owner: false,
            show_size: false,
            show_date_modified: false,
            show_total: false,
            colors: false,
            table: false,
            json: false,
            help: false,
            version: false,
        }
    }

    fn with(self, flag: Flag) -> (more: Seen)
        ensures
            forall|other: Flag| more.has(other) == (self.has(other) || other == flag),
    {
        Seen {
            all: self.all || flag == Flag::All,
            group_directories_first: self.group_directories_first || flag
                == Flag::GroupDirectoriesFirst,
            group_directories_last: self.group_directories_last || flag
                == Flag::GroupDirectoriesLast,
            show_all_columns: self.show_all_columns || flag == Flag::ShowAllColumns,
            show_permissions: self.show_permissions || flag == Flag::ShowPermissions,
            show_owner: self.show_owner || flag == Flag::ShowOwner,
            show_size: self.show_size || flag == Flag::ShowSize,
            show_date_modified: self.show_date_modified || flag == Flag::ShowDateModified,
            show_total: self.show_total || flag == Flag::ShowTotal,
            colors: self.colors || flag == Flag::Colors,
            table: self.table || flag == Flag::Table,
            json: self.json || flag == Flag::Json,
            help: self.help || flag == Flag::Help,
            version: self.version || flag == Flag::Version,
        }
    }
}

fn is_text(token: &String, text: &str) -> (same: bool)
    ensures
        same == (token@ == text@),
{
    *token == String::from_str(text)
}

fn long_flag_of(token: &String) -> (flag: Option<Flag>)
    ensures
        flag == long_flag(token@),
{
    if is_text(token, "--all") {
        Some(Flag::All)
    } else if is_text(token, "--group-directories-first") {
        Some(Flag::GroupDirectoriesFirst)
    } else if is_text(token, "--group-directories-last") {
        Some(Flag::GroupDirectoriesLast)
    } else if is_text(token, "--show-all-columns") {
        Some(Flag::ShowAllColumns)
    } else if is_text(token, "--show-permissions") {
        Some(Flag::ShowPermissions)
    } else if is_text(token, "--show-owner") {
        Some(Flag::ShowOwner)
    } else if is_text(token, "--show-size") {
        Some(Flag::ShowSize)
    } else if is_text(token, "--show-date-modified") {
        Some(Flag::ShowDateModified)
    } else if is_text(token, "--show-total") {
        Some(Flag::ShowTotal)
    } else if is_text(token, "--colors") {
        Some(Flag::Colors)
    } else if is_text(token, "--table") {
        Some(Flag::Table)
    } else if is_text(token, "--json") {
        Some(Flag::Json)
    } else if is_text(token, "--help") {
        Some(Flag::Help)
    } else if is_text(token, "--version") {
        Some(Flag::Version)
    } else {
        None
    }
}

fn short_flag_of(letter: char) -> (flag: Option<Flag>)
    ensures
        flag == short_flag(letter),
{
    if letter == 'a' {
        Some(Flag::All)
    } else if letter == 'c' {
        Some(Flag::Colors)
    } else if letter == 't' {
        Some(Flag::Table)
    } else if letter == 'j' {
        Some(Flag::Json)
    } else if letter == 'h' {
        Some(Flag::Help)
    } else if letter == 'V' {
        Some(Flag::Version)
    } else {
        None
    }
}

/// Takes one token into account. Returns whether it is an option.
fn take_token(old_seen: Seen, token: &String) -> (taken: (bool, Seen))
    ensures
        taken.0 == is_option(token@),
        forall|flag: Flag|
            taken.1.has(flag) == (old_seen.has(flag) || token_gives(token@, flag)),
{
    let letters = chars_of(token.as_str());
    if letters.len() < 2 || letters[0] != '-' {
        return (false, old_seen);
    }
    if letters[1] == '-' {
        return match long_flag_of(token) {
            Some(flag) => (true, old_seen.with(flag)),
            None => (true, old_seen),
        };
    }
    let mut seen = old_seen;
    let mut i: usize = 1;
    while i < letters.len()
        invariant
            1 <= i <= letters.len(),
            letters@ == token@,
            is_option(token@),
            !is_long_option(token@),
            forall|flag: Flag|
                seen.has(flag) == (old_seen.has(flag) || exists|k: int|
                    1 <= k < i && short_flag(#[trigger] token@[k]) == Some(flag)),
        decreases letters.len() - i,
    {
        let ghost before = seen;
        match short_flag_of(letters[i]) {
            Some(flag) => {
                seen = seen.with(flag);
            },
            None => {},
        }
        proof {
            assert forall|flag: Flag|
                seen.has(flag) == (old_seen.has(flag) || exists|k: int|
                    1 <= k < i + 1 && short_flag(#[trigger] token@[k]) == Some(flag)) by {
                if short_flag(token@[i as int]) == Some(flag) {
                    assert(seen.has(flag));
                }
                if exists|k: int| 1 <= k < i + 1 && short_flag(#[trigger] token@[k]) == Some(flag) {
                    let k = choose|k: int|
                        1 <= k < i + 1 && short_flag(#[trigger] token@[k]) == Some(flag);
                    if k < i {
                        assert(before.has(flag));
                    }
                }
            }
        }
        i = i + 1;
    }
    (true, seen)
}

/// The first path of a list of tokens with one more token behind them.
proof fn lemma_first_path_push(tokens: Seq<Seq<char>>, token: Seq<char>)
    ensures
        first_path(tokens.push(token)) == match first_path(tokens) {
            Some(path) => Some(path),
            None => if is_option(token) {
                None
            } else {
                Some(token)
            },
        },
    decreases tokens.len(),
{
    if tokens.len() == 0 {
        assert(tokens.push(token).drop_first() =~= tokens);
    } else {
        assert(tokens.push(token).drop_first() =~= tokens.drop_first().push(token));
        if is_option(tokens[0]) {
            lemma_first_path_push(tokens.drop_first(), token);
        }
    }
}

/// What is given by a list of tokens with one more token behind them.
proof fn lemma_given_push(tokens: Seq<Seq<char>>, token: Seq<char>, flag: Flag)
    ensures
        given(tokens.push(token), flag) == (given(tokens, flag) || token_gives(token, flag)),
{
    let more = tokens.push(token);
    if given(tokens, flag) {
        let i = choose|i: int| 0 <= i < tokens.len() && token_gives(#[trigger] tokens[i], flag);
        assert(token_gives(more[i], flag));
    }
    if token_gives(token, flag) {
        assert(token_gives(more[tokens.len() as int], flag));
    }
    if given(more, flag) {
        let i = choose|i: int| 0 <= i < more.len() && token_gives(#[trigger] more[i], flag);
        if i < tokens.len() {
            assert(token_gives(tokens[i], flag));
        }
    }
}

/// Whether the token at `index` is the first that is no option.
pub open spec fn is_first_path_at(tokens: Seq<Seq<char>>, index: int) -> bool {
    &&& 0 <= index < tokens.len()
    &&& !is_option(tokens[index])
    &&& forall|j: int| 0 <= j < index ==> is_option(#[trigger] tokens[j])
}

/// Whether a token is an option.
pub fn is_option_token(token: &String) -> (option: bool)
    ensures
        option == is_option(token@),
{
    let letters = chars_of(token.as_str());
    letters.len() >= 2 && letters[0] == '-'
}

/// Where among the tokens the path stands: the place of the first token
/// that is no option, if there is one. That token is the directory of the
/// configuration that `parse_args` gives.
pub fn first_path_index(tokens: &Vec<String>) -> (index: Option<usize>)
    ensures
        match index {
            Some(i) => is_first_path_at(tokens.deep_view(), i as int) && first_path(
                tokens.deep_view(),
            ) == Some(tokens.deep_view()[i as int]),
            None => first_path(tokens.deep_view()) is None && forall|j: int|
                0 <= j < tokens.len() ==> is_option(#[trigger] tokens.deep_view()[j]),
        },
{
    let ghost all_tokens = tokens.deep_view();
    let mut i: usize = 0;
    assert(all_tokens.take(0) =~= Seq::<Seq<char>>::empty());
    while i < tokens.len()
        invariant
            i <= tokens.len(),
            all_tokens == tokens.deep_view(),
            first_path(all_tokens.take(i as int)) is None,
            forall|j: int| 0 <= j < i ==> is_option(#[trigger] all_tokens[j]),
        decreases tokens.len() - i,
    {
        let option = is_option_token(&tokens[i]);
        proof {
            let done = all_tokens.take(i as int);
            assert(all_tokens.take(i + 1) =~= done.push(all_tokens[i as int]));
            lemma_first_path_push(done, all_tokens[i as int]);
        }
        if !option {
            proof {
                lemma_first_path_prefix(all_tokens, i + 1);
            }
            return Some(i);
        }
        i = i + 1;
    }
    assert(all_tokens.take(i as int) =~= all_tokens);
    None
}

/// A path found among the first tokens is the path of all of them.
proof fn lemma_first_path_prefix(tokens: Seq<Seq<char>>, count: int)
    requires
        0 <= count <= tokens.len(),
        first_path(tokens.take(count)) is Some,
    ensures
        first_path(tokens) == first_path(tokens.take(count)),
    decreases tokens.len() - count,
{
    if count < tokens.len() {
        assert(tokens.take(count + 1) =~= tokens.take(count).push(tokens[count]));
        lemma_first_path_push(tokens.take(count), tokens[count]);
        lemma_first_path_prefix(tokens, count + 1);
    } else {
        assert(tokens.take(count) =~= tokens);
    }
}

/// Reads the tokens of a command line, without the program's name.
///
/// Options that are not known are passed over, and so is every path but the
/// first. Switches that contradict each other are refused; otherwise a request
/// for help or for the version comes before the listing.
pub fn parse_args(tokens: &Vec<String>) -> (outcome: Result<Invocation, ParseError>)
    ensures
        match outcome {
            Ok(invocation) => parse_outcome(tokens.deep_view()) == Ok::<
                InvocationModel,
                ParseError,
            >(invocation@),
            Err(error) => parse_outcome(tokens.deep_view()) == Err::<InvocationModel, ParseError>(
                error,
            ),
        },
        outcome matches Ok(Invocation::List(config)) ==> config@.well_formed(),
{
    let ghost all_tokens = tokens.deep_view();
    let mut seen = Seen::nothing();
    let mut directory: Option<String> = None;
    let mut i: usize = 0;
    assert(all_tokens.take(0) =~= Seq::<Seq<char>>::empty());
    while i < tokens.len()
        invariant
            i <= tokens.len(),
            all_tokens == tokens.deep_view(),
            forall|flag: Flag| seen.has(flag) == given(all_tokens.take(i as int), flag),
            match directory {
                Some(path) => first_path(all_tokens.take(i as int)) == Some(path@),
                None => first_path(all_tokens.take(i as int)) is None,
            },
        decreases tokens.len() - i,
    {
        let ghost before = seen;
        let token = &tokens[i];
        let (option, more) = take_token(seen, token);
        seen = more;
        if !option && directory.is_none() {
            directory = Some(token.clone());
        }
        proof {
            let done = all_tokens.take(i as int);
            assert(all_tokens.take(i + 1) =~= done.push(token@));
            lemma_first_path_push(done, token@);
            assert forall|flag: Flag| seen.has(flag) == given(done.push(token@), flag) by {
                lemma_given_push(done, token@, flag);
                assert(before.has(flag) == given(done, flag));
                assert(seen.has(flag) == (before.has(flag) || token_gives(token@, flag)));
            }
        }
        i = i + 1;
    }
    assert(all_tokens.take(i as int) =~= all_tokens);
    assert(seen.has(Flag::GroupDirectoriesFirst) == seen.group_directories_first);
    assert(seen.has(Flag::GroupDirectoriesLast) == seen.group_directories_last);
    assert(seen.has(Flag::Table) == seen.table);
    assert(seen.has(Flag::Json) == seen.json);
    if seen.group_directories_first && seen.group_directories_last {
        return Err(ParseError::ConflictingGrouping);
    }
    if seen.table && seen.json {
        return Err(ParseError::ConflictingOutput);
    }
    assert(seen.has(Flag::Help) == seen.help);
    assert(seen.has(Flag::Version) == seen.version);
    if seen.help || seen.version {
        return Ok(Invocation::Info { help: seen.help, version: seen.version });
    }
    assert(seen.has(Flag::All) == seen.all);
    assert(seen.has(Flag::ShowAllColumns) == seen.show_all_columns);
    assert(seen.has(Flag::ShowPermissions) == seen.show_permissions);
    assert(seen.has(Flag::ShowOwner) == seen.show_owner);
    assert(seen.has(Flag::ShowSize) == seen.show_size);
    assert(seen.has(Flag::ShowDateModified) == seen.show_date_modified);
    assert(seen.has(Flag::ShowTotal) == seen.show_total);
    assert(seen.has(Flag::Colors) == seen.colors);
    let config = RunConfig {
        all: seen.all,
        group_directories_first: seen.group_directories_first,
        group_directories_last: seen.group_directories_last,
        show_permissions: seen.show_permissions || seen.show_all_columns,
        show_owner: seen.show_owner || seen.show_all_columns,
        show_size: seen.show_size || seen.show_all_columns,
        show_date_modified: seen.show_date_modified || seen.show_all_columns,
        show_total: seen.show_total || seen.show_all_columns,
        colors: seen.colors,
        table: seen.table,
        json: seen.json,
        directory,
    };
    assert(config@ == requested(all_tokens));
    Ok(Invocation::List(config))
}

} // verus!
