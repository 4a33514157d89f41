//! The arguments that a release gives to the game and to the virtual machine it runs on.
use vstd::prelude::*;

use crate::json::Json;
use crate::library::Library;
use crate::rules::Rule;
use crate::text::join;

verus! {

/// The arguments of the game.
#[derive(Debug, PartialEq)]
pub struct GameFlags {
    pub rules: Vec<Rule>,
    pub arguments: Vec<String>,
    pub additional_arguments: Option<Vec<String>>,
}

/// The arguments of the virtual machine.
#[derive(Debug, PartialEq)]
pub struct JvmFlags {
    pub rules: Vec<Rule>,
    pub arguments: Vec<String>,
    pub additional_arguments: Option<Vec<String>>,
}

/// The values that stand for the variables in the arguments of the virtual machine.
#[derive(Debug, PartialEq, Eq)]
pub struct JvmArgs {
    pub launcher_name: String,
    pub launcher_version: String,
    pub classpath: String,
    pub classpath_separator: String,
    pub primary_jar: String,
    pub library_directory: String,
    pub game_directory: String,
}

/// Why the arguments of a release cannot be used.
#[derive(Debug)]
pub enum FlagsError {
    /// There is no list of arguments of the game.
    NoGameArguments,
    /// There is no list of arguments of the virtual machine.
    NoJvmArguments,
    /// A rule among the arguments could not be read; the text says why.
    Rules(String),
}

/// What is said of arguments that cannot be used.
pub open spec fn flags_error_text(error: FlagsError) -> Seq<char> {
    match error {
        FlagsError::NoGameArguments => "Failure to parse contents[\"arguments\"][\"game\"]"@,
        FlagsError::NoJvmArguments => "Failure to parse contents[\"arguments\"][\"jvm\"]"@,
        FlagsError::Rules(_) => "Failed to collect/serialize rules"@,
    }
}

impl FlagsError {
    /// The text that tells a person what is wrong with the arguments.
    pub fn message(&self) -> (text: String)
        ensures
            text@ == flags_error_text(*self),
    {
        match self {
            FlagsError::NoGameArguments => {
                "Failure to parse contents[\"arguments\"][\"game\"]".to_owned()
            },
            FlagsError::NoJvmArguments => {
                "Failure to parse contents[\"arguments\"][\"jvm\"]".to_owned()
            },
            FlagsError::Rules(_) => "Failed to collect/serialize rules".to_owned(),
        }
    }
}

/// Whether an argument comes with a rule: the first of its rules is an object.
pub open spec fn has_rule(argument: Json) -> bool {
    argument.field("rules"@).item(0).members() is Some
}

/// The rules of the arguments that come with one, in their order, or what was wrong with the first
/// of them that could not be read. `parsed` holds, for each argument, what reading its first rule
/// gave.
pub open spec fn collected_rules(argument: Seq<Json>, parsed: Seq<Result<Rule, String>>) -> Result<
    Seq<Rule>,
    String,
>
    decreases argument.len(),
{
    if argument.len() == 0 {
        Ok(Seq::empty())
    } else {
        match collected_rules(argument.drop_last(), parsed.drop_last()) {
            Err(message) => Err(message),
            Ok(rules) => if !has_rule(argument.last()) {
                Ok(rules)
            } else {
                match parsed.last() {
                    Ok(rule) => Ok(rules.push(rule)),
                    Err(message) => Err(message),
                }
            },
        }
    }
}

/// The arguments that are plain strings, in their order.
pub open spec fn plain_arguments(argument: Seq<Json>) -> Seq<Seq<char>>
    decreases argument.len(),
{
    if argument.len() == 0 {
        Seq::empty()
    } else {
        let front = plain_arguments(argument.drop_last());
        match argument.last().text() {
            Some(text) => front.push(text),
            None => front,
        }
    }
}

/// Once a rule could not be read, the arguments after it change nothing.
proof fn lemma_error_is_kept(argument: Seq<Json>, parsed: Seq<Result<Rule, String>>, count: int)
    requires
        argument.len() == parsed.len(),
        0 <= count <= argument.len(),
        collected_rules(argument.take(count), parsed.take(count)) is Err,
    ensures
        collected_rules(argument, parsed) == collected_rules(
            argument.take(count),
            parsed.take(count),
        ),
    decreases argument.len(),
{
    if count == argument.len() {
        assert(argument.take(count) =~= argument);
        assert(parsed.take(count) =~= parsed);
    } else {
        assert(argument.drop_last().take(count) =~= argument.take(count));
        assert(parsed.drop_last().take(count) =~= parsed.take(count));
        lemma_error_is_kept(argument.drop_last(), parsed.drop_last(), count);
    }
}

/// The rules of the arguments that come with one. `parsed` holds, for each argument, what reading
/// its first rule gave; of an argument without a rule it is not looked at.
pub fn get_rules(argument: &Vec<Json>, parsed: Vec<Result<Rule, String>>) -> (result: Result<
    Vec<Rule>,
    FlagsError,
>)
    requires
        parsed@.len() == argument@.len(),
    ensures
        match collected_rules(argument@, parsed@) {
            Ok(rules) => result matches Ok(r) && r@ == rules,
            Err(message) => result == Err::<Vec<Rule>, FlagsError>(FlagsError::Rules(message)),
        },
{
    let mut rules: Vec<Rule> = Vec::new();
    let mut index: usize = 0;
    let ghost outcomes = parsed@;
    for outcome in iter: parsed
        invariant
            outcomes.len() == argument@.len(),
            iter.seq() == outcomes,
            index == iter.index(),
            collected_rules(argument@.take(index as int), outcomes.take(index as int)) == Ok::<
                Seq<Rule>,
                String,
            >(rules@),
    {
        proof {
            assert(argument@.take(index + 1).drop_last() =~= argument@.take(index as int));
            assert(outcomes.take(index + 1).drop_last() =~= outcomes.take(index as int));
            assert(outcome == outcomes[index as int]);
            assert(argument@.len() == argument.len());
        }
        if argument[index].get("rules").at(0).is_object() {
            match outcome {
                Ok(rule) => rules.push(rule),
                Err(message) => {
                    proof {
                        lemma_error_is_kept(argument@, outcomes, index + 1);
                    }
                    return Err(FlagsError::Rules(message));
                },
            }
        }
        index = index + 1;
    }
    proof {
        assert(argument@.take(argument@.len() as int) =~= argument@);
        assert(outcomes.take(outcomes.len() as int) =~= outcomes);
    }
    Ok(rules)
}

/// The arguments that are plain strings, in their order.
pub fn get_plain_arguments(argument: &Vec<Json>) -> (arguments: Vec<String>)
    ensures
        crate::text::texts(arguments@) == plain_arguments(argument@),
{
    let mut arguments: Vec<String> = Vec::new();
    for i in 0..argument.len()
        invariant
            crate::text::texts(arguments@) == plain_arguments(argument@.take(i as int)),
    {
        let ghost before = arguments@;
        proof {
            assert(argument@.take(i + 1).drop_last() =~= argument@.take(i as int));
        }
        if let Some(text) = argument[i].as_str() {
            arguments.push(text.to_owned());
            proof {
                assert(crate::text::texts(arguments@) =~= crate::text::texts(before).push(text@));
            }
        }
    }
    proof {
        assert(argument@.take(argument@.len() as int) =~= argument@);
    }
    arguments
}

/// The list of arguments that a release gives under `kind`, where it gives one.
pub open spec fn argument_list(contents: Json, kind: Seq<char>) -> Option<Seq<Json>> {
    contents.field("arguments"@).field(kind).items()
}

/// The arguments that the document of a release gives to the game. `parsed` holds, for each of
/// them, what reading its first rule gave.
pub fn game_flags(contents: &Json, parsed: Vec<Result<Rule, String>>) -> (result: Result<
    GameFlags,
    FlagsError,
>)
    requires
        argument_list(*contents, "game"@) matches Some(argument) ==> parsed@.len()
            == argument.len(),
    ensures
        match argument_list(*contents, "game"@) {
            None => result matches Err(FlagsError::NoGameArguments),
            Some(argument) => match collected_rules(argument, parsed@) {
                Err(message) => result == Err::<GameFlags, FlagsError>(FlagsError::Rules(message)),
                Ok(rules) => {
                    &&& result matches Ok(flags)
                    &&& flags.rules@ == rules
                    &&& crate::text::texts(flags.arguments@) == plain_arguments(argument)
                    &&& flags.additional_arguments is None
                },
            },
        },
{
    let argument = match contents.get("arguments").get("game").as_array() {
        Some(argument) => argument,
        None => return Err(FlagsError::NoGameArguments),
    };
    match get_rules(argument, parsed) {
        Ok(rules) => Ok(
            GameFlags {
                rules,
                arguments: get_plain_arguments(argument),
                additional_arguments: None,
            },
        ),
        Err(error) => Err(error),
    }
}

/// The arguments that the document of a release gives to the virtual machine. `parsed` holds, for
/// each of them, what reading its first rule gave.
pub fn jvm_flags(contents: &Json, parsed: Vec<Result<Rule, String>>) -> (result: Result<
    JvmFlags,
    FlagsError,
>)
    requires
        argument_list(*contents, "jvm"@) matches Some(argument) ==> parsed@.len()
            == argument.len(),
    ensures
        match argument_list(*contents, "jvm"@) {
            None => result matches Err(FlagsError::NoJvmArguments),
            Some(argument) => match collected_rules(argument, parsed@) {
                Err(message) => result == Err::<JvmFlags, FlagsError>(FlagsError::Rules(message)),
                Ok(rules) => {
                    &&& result matches Ok(flags)
                    &&& flags.rules@ == rules
                    &&& crate::text::texts(flags.arguments@) == plain_arguments(argument)
                    &&& flags.additional_arguments is None
                },
            },
        },
{
    let argument = match contents.get("arguments").get("jvm").as_array() {
        Some(argument) => argument,
        None => return Err(FlagsError::NoJvmArguments),
    };
    match get_rules(argument, parsed) {
        Ok(rules) => Ok(
            JvmFlags {
                rules,
                arguments: get_plain_arguments(argument),
                additional_arguments: None,
            },
        ),
        Err(error) => Err(error),
    }
}

/// The files of the libraries, in their order.
pub open spec fn library_paths(libraries: Seq<Library>) -> Seq<Seq<char>> {
    libraries.map_values(|library: Library| library.downloads.artifact.path@)
}

/// The class path: the files of all libraries, and the client at the end, with colons between.
pub open spec fn classpath_text(libraries: Seq<Library>, client_jar: Seq<char>) -> Seq<char> {
    crate::text::joined(library_paths(libraries).push(client_jar), ":"@)
}

/// The class path of a release.
pub fn classpath(libraries: &Vec<Library>, client_jar: &str) -> (path: String)
    ensures
        path@ == classpath_text(libraries@, client_jar@),
{
    let mut files: Vec<String> = Vec::new();
    for i in 0..libraries.len()
        invariant
            crate::text::texts(files@) == library_paths(libraries@.take(i as int)),
    {
        let ghost before = files@;
        files.push(libraries[i].downloads.artifact.path.clone());
        proof {
            let path = libraries@[i as int].downloads.artifact.path@;
            assert(crate::text::texts(files@) =~= crate::text::texts(before).push(path));
            assert(library_paths(libraries@.take(i + 1)) =~= library_paths(
                libraries@.take(i as int),
            ).push(path));
        }
    }
    let ghost before = files@;
    files.push(client_jar.to_owned());
    proof {
        assert(libraries@.take(libraries@.len() as int) =~= libraries@);
        assert(crate::text::texts(files@) =~= crate::text::texts(before).push(client_jar@));
    }
    join(&files, ":")
}

/// The values for the arguments of the virtual machine.
pub fn jvm_options(libraries: &Vec<Library>, client_jar: &str) -> (options: JvmArgs)
    ensures
        options.launcher_name@ == "era-connect"@,
        options.launcher_version@ == "0.0.1"@,
        options.classpath@ == classpath_text(libraries@, client_jar@),
        options.classpath_separator@ == ":"@,
        options.primary_jar@ == client_jar@,
        options.library_directory@ == "./"@,
        options.game_directory@ == "~/.minecraft"@,
{
    JvmArgs {
        launcher_name: "era-connect".to_owned(),
        launcher_version: "0.0.1".to_owned(),
        classpath: classpath(libraries, client_jar),
        classpath_separator: ":".to_owned(),
        primary_jar: client_jar.to_owned(),
        library_directory: "./".to_owned(),
        game_directory: "~/.minecraft".to_owned(),
    }
}

/// The rules are read exactly when the rule of every argument that comes with one is.
pub proof fn law_rules_read_when_every_rule_is(
    argument: Seq<Json>,
    parsed: Seq<Result<Rule, String>>,
)
    requires
        argument.len() == parsed.len(),
    ensures
        collected_rules(argument, parsed) is Ok <==> forall|i: int|
            0 <= i < argument.len() && has_rule(#[trigger] argument[i]) ==> parsed[i] is Ok,
    decreases argument.len(),
{
    if argument.len() > 0 {
        let front = argument.drop_last();
        let last = argument.len() - 1;
        law_rules_read_when_every_rule_is(front, parsed.drop_last());
        if collected_rules(argument, parsed) is Ok {
            assert forall|i: int|
                0 <= i < argument.len() && has_rule(#[trigger] argument[i]) implies parsed[i] is Ok by {
                if i < last {
                    assert(has_rule(front[i]));
                    assert(parsed.drop_last()[i] == parsed[i]);
                }
            }
        } else if collected_rules(front, parsed.drop_last()) is Err {
            let k = choose|k: int|
                0 <= k < front.len() && has_rule(#[trigger] front[k]) && !(
                parsed.drop_last()[k] is Ok);
            assert(has_rule(argument[k]));
            assert(parsed.drop_last()[k] == parsed[k]);
        } else {
            assert(has_rule(argument[last]));
        }
    }
}

/// The first rule that could not be read decides how the arguments are refused.
pub proof fn law_first_unreadable_rule_is_reported(
    argument: Seq<Json>,
    parsed: Seq<Result<Rule, String>>,
    k: int,
)
    requires
        argument.len() == parsed.len(),
        0 <= k < argument.len(),
        has_rule(argument[k]),
        parsed[k] is Err,
        forall|i: int| 0 <= i < k && has_rule(#[trigger] argument[i]) ==> parsed[i] is Ok,
    ensures
        collected_rules(argument, parsed) == Err::<Seq<Rule>, String>(parsed[k]->Err_0),
{
    let front = argument.take(k);
    assert forall|i: int| 0 <= i < k && has_rule(#[trigger] front[i]) implies parsed.take(
        k,
    )[i] is Ok by {
        assert(has_rule(argument[i]));
    }
    law_rules_read_when_every_rule_is(front, parsed.take(k));
    assert(argument.take(k + 1).drop_last() =~= front);
    assert(parsed.take(k + 1).drop_last() =~= parsed.take(k));
    lemma_error_is_kept(argument, parsed, k + 1);
}

/// The client is the last entry of the class path, after those of the libraries.
pub proof fn law_classpath_ends_with_the_client(libraries: Seq<Library>, client_jar: Seq<char>)
    ensures
        classpath_text(libraries, client_jar) == if libraries.len() == 0 {
            client_jar
        } else {
            crate::text::joined(library_paths(libraries), ":"@) + ":"@ + client_jar
        },
{
    crate::text::law_join_ends_with_last(library_paths(libraries), client_jar, ":"@);
}

/// Every argument that is a string is kept, whatever its characters, and nothing else is: the plain
/// arguments are the strings among the arguments, in their order.
pub proof fn law_plain_arguments_are_the_strings(argument: Seq<Json>)
    ensures
        plain_arguments(argument) == argument.filter(|value: Json| value is Text).map_values(
            |value: Json| value->Text_0@,
        ),
    decreases argument.len(),
{
    reveal(Seq::filter);
    let strings = |value: Json| value is Text;
    let characters = |value: Json| value->Text_0@;
    if argument.len() == 0 {
        assert(argument.filter(strings).map_values(characters) =~= Seq::empty());
    } else {
        let front = argument.drop_last();
        law_plain_arguments_are_the_strings(front);
        if argument.last() is Text {
            assert(argument.filter(strings) == front.filter(strings).push(argument.last()));
            assert(argument.filter(strings).map_values(characters) =~= front.filter(
                strings,
            ).map_values(characters).push(argument.last()->Text_0@));
        } else {
            assert(argument.filter(strings) == front.filter(strings));
        }
    }
}

/// One argument gives its characters where it is a string, and nothing where it is not.
pub proof fn law_plain_argument_of_one(text: String, other: Json)
    requires
        !(other is Text),
    ensures
        plain_arguments(seq![Json::Text(text)]) == seq![text@],
        plain_arguments(seq![other]) == Seq::<Seq<char>>::empty(),
        plain_arguments(Seq::<Json>::empty()) == Seq::<Seq<char>>::empty(),
{
    reveal_with_fuel(plain_arguments, 2);
    assert(seq![Json::Text(text)].drop_last() =~= Seq::empty());
    assert(seq![other].drop_last() =~= Seq::empty());
    assert(plain_arguments(seq![Json::Text(text)]) =~= seq![text@]);
}

/// The plain arguments of two lists put together are those of the one and then those of the other.
pub proof fn law_plain_arguments_of_two_lists(first: Seq<Json>, second: Seq<Json>)
    ensures
        plain_arguments(first + second) == plain_arguments(first) + plain_arguments(second),
    decreases second.len(),
{
    if second.len() == 0 {
        assert(first + second =~= first);
        assert(plain_arguments(first) + plain_arguments(second) =~= plain_arguments(first));
    } else {
        law_plain_arguments_of_two_lists(first, second.drop_last());
        assert((first + second).drop_last() =~= first + second.drop_last());
        assert((first + second).last() == second.last());
        assert(plain_arguments(first + second) =~= plain_arguments(first) + plain_arguments(
            second,
        ));
    }
}

/// A list of strings is given back whole: as many arguments, each with its characters.
pub proof fn law_strings_are_given_back(argument: Seq<Json>)
    requires
        forall|i: int| 0 <= i < argument.len() ==> (#[trigger] argument[i]) is Text,
    ensures
        plain_arguments(argument).len() == argument.len(),
        forall|i: int|
            0 <= i < argument.len() ==> #[trigger] plain_arguments(argument)[i]
                == argument[i]->Text_0@,
    decreases argument.len(),
{
    if argument.len() > 0 {
        assert(argument[argument.len() - 1] is Text);
        law_strings_are_given_back(argument.drop_last());
    }
}

/// An argument comes with a rule exactly when the first element of its list of rules is an object.
pub proof fn law_rules_are_objects(argument: Json)
    ensures
        has_rule(argument) <==> argument.field("rules"@).item(0) is Object,
{
}

/// One argument gives its rule, or what was wrong with it, where it comes with one, and nothing
/// where it does not.
pub proof fn law_rule_of_one_argument(argument: Json, outcome: Result<Rule, String>)
    ensures
        collected_rules(seq![argument], seq![outcome]) == if !(argument.field("rules"@).item(
            0,
        ) is Object) {
            Ok::<Seq<Rule>, String>(Seq::empty())
        } else {
            match outcome {
                Ok(rule) => Ok(seq![rule]),
                Err(message) => Err(message),
            }
        },
        collected_rules(Seq::empty(), Seq::empty()) == Ok::<Seq<Rule>, String>(Seq::empty()),
{
    reveal_with_fuel(collected_rules, 2);
    assert(seq![argument].drop_last() =~= Seq::empty());
    assert(Seq::<Rule>::empty().push(outcome->Ok_0) =~= seq![outcome->Ok_0]);
}

/// The rules of two lists of arguments put together are those of the one and then those of the
/// other; where a rule of the first could not be read, that is reported.
pub proof fn law_rules_of_two_lists(
    first: Seq<Json>,
    first_parsed: Seq<Result<Rule, String>>,
    second: Seq<Json>,
    second_parsed: Seq<Result<Rule, String>>,
)
    requires
        first.len() == first_parsed.len(),
        second.len() == second_parsed.len(),
    ensures
        collected_rules(first + second, first_parsed + second_parsed) == match collected_rules(
            first,
            first_parsed,
        ) {
            Err(message) => Err::<Seq<Rule>, String>(message),
            Ok(rules) => match collected_rules(second, second_parsed) {
                Err(message) => Err(message),
                Ok(more) => Ok(rules + more),
            },
        },
    decreases second.len(),
{
    if second.len() == 0 {
        assert(first + second =~= first);
        assert(first_parsed + second_parsed =~= first_parsed);
        if collected_rules(first, first_parsed) is Ok {
            let rules = collected_rules(first, first_parsed)->Ok_0;
            assert(rules + Seq::<Rule>::empty() =~= rules);
        }
    } else {
        let all = first + second;
        let all_parsed = first_parsed + second_parsed;
        law_rules_of_two_lists(
            first,
            first_parsed,
            second.drop_last(),
            second_parsed.drop_last(),
        );
        assert(all.drop_last() =~= first + second.drop_last());
        assert(all_parsed.drop_last() =~= first_parsed + second_parsed.drop_last());
        assert(all.last() == second.last());
        assert(all_parsed.last() == second_parsed.last());
        if collected_rules(first, first_parsed) is Ok && collected_rules(
            second.drop_last(),
            second_parsed.drop_last(),
        ) is Ok && second_parsed.last() is Ok {
            let rules = collected_rules(first, first_parsed)->Ok_0;
            let more = collected_rules(second.drop_last(), second_parsed.drop_last())->Ok_0;
            let rule = second_parsed.last()->Ok_0;
            assert((rules + more).push(rule) =~= rules + more.push(rule));
        }
    }
}

/// The list of arguments of a kind is the array of that name among the arguments of a release.
pub proof fn law_arguments_stand_under_their_kind(contents: Json, kind: Seq<char>)
    ensures
        argument_list(contents, kind) == match contents.field("arguments"@).field(kind) {
            Json::Array(items) => Some(items@),
            _ => None,
        },
{
}

/// A library put in front of the others enters the class path by the file of its artifact, followed
/// by a colon, whatever its rules, its name, its size and its address.
pub proof fn law_classpath_begins_with_the_first_library(
    library: Library,
    libraries: Seq<Library>,
    client_jar: Seq<char>,
)
    ensures
        classpath_text(seq![library] + libraries, client_jar) == library.downloads.artifact.path@
            + ":"@ + classpath_text(libraries, client_jar),
        classpath_text(Seq::empty(), client_jar) == client_jar,
{
    let path = library.downloads.artifact.path@;
    let rest = library_paths(libraries).push(client_jar);
    assert(library_paths(seq![library] + libraries).push(client_jar) =~= seq![path] + rest);
    crate::text::law_join_of_two_lists(seq![path], rest, ":"@);
    crate::text::law_join_of_few_parts(path, ":"@);
    crate::text::law_join_of_few_parts(client_jar, ":"@);
    assert(library_paths(Seq::empty()).push(client_jar) =~= seq![client_jar]);
}

/// A library put at the end of the others enters the class path between them and the client, by the
/// file of its artifact: up to there the class path is what it would be with that file as the
/// client.
pub proof fn law_classpath_grows_by_the_artifact(
    libraries: Seq<Library>,
    library: Library,
    client_jar: Seq<char>,
)
    ensures
        classpath_text(libraries.push(library), client_jar) == classpath_text(
            libraries,
            library.downloads.artifact.path@,
        ) + ":"@ + client_jar,
{
    let paths = library_paths(libraries).push(library.downloads.artifact.path@);
    assert(library_paths(libraries.push(library)) =~= paths);
    crate::text::law_join_ends_with_last(paths, client_jar, ":"@);
}

/// Each reason for which arguments cannot be used is told in its own words.
pub proof fn law_flags_errors_have_their_texts(message: String)
    ensures
        flags_error_text(FlagsError::NoGameArguments)
            == "Failure to parse contents[\"arguments\"][\"game\"]"@,
        flags_error_text(FlagsError::NoJvmArguments)
            == "Failure to parse contents[\"arguments\"][\"jvm\"]"@,
        flags_error_text(FlagsError::Rules(message)) == "Failed to collect/serialize rules"@,
{
}

} // verus!
