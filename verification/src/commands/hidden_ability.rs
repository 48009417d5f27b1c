//! The command that lists the hidden abilities of pokemon.

use crate::commands::error::pokeapi_error_text;
use crate::services::pokeapi::{
    convert_to_pokeapi_name, is_api_name, normalized, PokeAPIResult, PokeAPIService,
};
use crate::text::lowercase_of;
use vstd::prelude::*;
use vstd::string::StringExecFns;

verus! {

/// The line for one pokemon: its name and its hidden ability, or what went
/// wrong with the lookup.
pub open spec fn lookup_text(api_name: Seq<char>, outcome: PokeAPIResult) -> Seq<char> {
    match outcome {
        Ok(ability) => api_name + ": "@ + ability@ + "\n"@,
        Err(why) => pokeapi_error_text(why),
    }
}

/// The line for one pokemon, given what the service said of it.
pub fn format_lookup(api_name: &str, outcome: &PokeAPIResult) -> (line: String)
    ensures
        line@ == lookup_text(api_name@, *outcome),
{
    match outcome {
        Ok(ability) => {
            let mut line = api_name.to_owned();
            line.append(": ");
            line.append(ability.as_str());
            line.append("\n");
            line
        },
        Err(why) => why.to_string(),
    }
}

/// The name that was typed cannot be that of a pokemon.
pub open spec fn is_refused(typed: Seq<char>) -> bool {
    !is_api_name(normalized(lowercase_of(typed)))
}

/// The line for one name as it was typed: a name that cannot be that of a
/// pokemon is reported as such, whatever the service would say of it.
pub open spec fn line_text(typed: Seq<char>, outcome: PokeAPIResult) -> Seq<char> {
    if is_refused(typed) {
        "Name is not valid for PokeAPI: "@ + typed
    } else {
        lookup_text(typed, outcome)
    }
}

/// The lines for the names, one after the other, where the service answered
/// the lookup of each with the outcome at its position.
pub open spec fn report_text(names: Seq<&str>, outcomes: Seq<PokeAPIResult>) -> Seq<char>
    decreases names.len(),
{
    if names.len() == 0 {
        Seq::empty()
    } else {
        report_text(names.drop_last(), outcomes.drop_last()) + line_text(
            names.last()@,
            outcomes.last(),
        )
    }
}

/// `outcome` is an answer that the service may give when it is asked for
/// the hidden ability of the pokemon with a name of these characters.
pub open spec fn may_look_up<S: PokeAPIService>(
    api_service: &S,
    name: Seq<char>,
    outcome: PokeAPIResult,
) -> bool {
    exists|asked: &str|
        asked@ == name && #[trigger] call_ensures(
            S::get_hidden_ability,
            (api_service, asked),
            outcome,
        )
}

/// `line` is the line for the name as it was typed: the refusal of a name
/// that cannot be that of a pokemon, else what the service answered when it
/// was asked for that name.
pub open spec fn is_line<S: PokeAPIService>(
    line: Seq<char>,
    typed: Seq<char>,
    api_service: &S,
) -> bool {
    if is_refused(typed) {
        line == "Name is not valid for PokeAPI: "@ + typed
    } else {
        exists|outcome: PokeAPIResult| #[trigger]
            may_look_up(api_service, typed, outcome) && line == lookup_text(typed, outcome)
    }
}

/// The line for one name as it was typed. A name that cannot be that of a
/// pokemon is refused; for any other the service is asked once, with the
/// name as it was typed, and its answer is the line.
pub fn format_hidden_ability<S: PokeAPIService>(input_name: &str, api_service: &S) -> (line: String)
    ensures
        is_line(line@, input_name@, api_service),
{
    match convert_to_pokeapi_name(input_name.to_owned()) {
        Ok(api_name) => {
            let outcome = api_service.get_hidden_ability(api_name.as_str());
            assert(may_look_up(api_service, input_name@, outcome));
            format_lookup(api_name.as_str(), &outcome)
        },
        Err(why) => why.to_string(),
    }
}

/// The lines for all the names, one after the other, in the order of the
/// names. The service is asked once for each name that can be that of a
/// pokemon, with the name as it was typed, and `outcomes` in the contract
/// holds its answers.
pub fn get_hidden_abilities<S: PokeAPIService>(pokemon_list: Vec<&str>, api_service: &S) -> (output:
    String)
    ensures
        exists|outcomes: Seq<PokeAPIResult>|
            {
                &&& outcomes.len() == pokemon_list@.len()
                &&& forall|i: int|
                    0 <= i < pokemon_list@.len() && !is_refused(pokemon_list@[i]@) ==> may_look_up(
                        api_service,
                        pokemon_list@[i]@,
                        #[trigger] outcomes[i],
                    )
                &&& output@ == #[trigger] report_text(pokemon_list@, outcomes)
            },
{
    let mut output = String::new();
    let ghost mut outcomes: Seq<PokeAPIResult> = Seq::empty();
    let mut i: usize = 0;
    assert(pokemon_list@.take(0).len() == 0);
    while i < pokemon_list.len()
        invariant
            i <= pokemon_list.len(),
            outcomes.len() == i,
            forall|j: int|
                0 <= j < i && !is_refused(pokemon_list@[j]@) ==> may_look_up(
                    api_service,
                    pokemon_list@[j]@,
                    #[trigger] outcomes[j],
                ),
            output@ == report_text(pokemon_list@.take(i as int), outcomes),
        decreases pokemon_list.len() - i,
    {
        let line = format_hidden_ability(pokemon_list[i], api_service);
        proof {
            let typed = pokemon_list@[i as int]@;
            let outcome = if is_refused(typed) {
                arbitrary::<PokeAPIResult>()
            } else {
                choose|outcome: PokeAPIResult| #[trigger]
                    may_look_up(api_service, typed, outcome) && line@ == lookup_text(typed, outcome)
            };
            assert(line@ == line_text(typed, outcome));
            let before = pokemon_list@.take(i as int);
            let after = pokemon_list@.take(i as int + 1);
            assert(after.drop_last() =~= before);
            assert(outcomes.push(outcome).drop_last() =~= outcomes);
            outcomes = outcomes.push(outcome);
        }
        output.append(line.as_str());
        i += 1;
    }
    assert(pokemon_list@.take(i as int) =~= pokemon_list@);
    output
}

} // verus!
