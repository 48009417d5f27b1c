//! Names and abilities as the pokemon lookup service knows them.

use crate::text::{lowercase_of, to_lowercase};
use vstd::prelude::*;

verus! {

/// Shortest length of a name; the shortest name there is has three letters.
pub const MIN_CHARS: usize = 3;

/// Longest length of a name.
pub const MAX_CHARS: usize = 25;

/// What is reported for a pokemon without a hidden ability.
pub const NO_HIDDEN_ABILITY: &'static str = "No Hidden Ability";

/// Why the hidden ability of a pokemon could not be told.
#[derive(Debug, PartialEq, Clone)]
pub enum PokeAPIError {
    /// The service answered the lookup of this name with this status.
    NonSuccessStatus(String, u16),
    /// The answer of the service could not be read.
    InvalidContentType(String),
    /// The name cannot be the name of a pokemon.
    InvalidPokeAPIName(String),
}

/// What a lookup returns: a text, or why there is none.
pub type PokeAPIResult = Result<String, PokeAPIError>;

/// A lookup of the hidden ability of the pokemon with the given name.
pub trait PokeAPIService {
    fn get_hidden_ability(&self, api_name: &str) -> PokeAPIResult;
}

/// One ability of a pokemon, as the service lists it.
#[derive(Debug)]
pub struct Ability {
    pub name: String,
    pub is_hidden: bool,
}

/// The name of the last hidden ability in the list, or the text that stands
/// for none.
pub open spec fn hidden_ability_of(abilities: Seq<Ability>) -> Seq<char>
    decreases abilities.len(),
{
    if abilities.len() == 0 {
        NO_HIDDEN_ABILITY@
    } else if abilities.last().is_hidden {
        abilities.last().name@
    } else {
        hidden_ability_of(abilities.drop_last())
    }
}

/// How the answers of the lookup service are read.
pub struct RealPokeAPIService;

impl RealPokeAPIService {
    /// The reader of answers; there is only one.
    pub fn new() -> (service: Self)
        ensures
            service == RealPokeAPIService,
    {
        Self {  }
    }

    /// The hidden ability among the abilities that the service lists for a
    /// pokemon: the last one marked hidden.
    pub fn extract_hidden_ability(abilities: &Vec<Ability>) -> (hidden: String)
        ensures
            hidden@ == hidden_ability_of(abilities@),
    {
        let mut i: usize = abilities.len();
        assert(abilities@.take(i as int) =~= abilities@);
        while i > 0
            invariant
                i <= abilities.len(),
                hidden_ability_of(abilities@) == hidden_ability_of(abilities@.take(i as int)),
            decreases i,
        {
            proof {
                let prefix = abilities@.take(i as int);
                assert(prefix.drop_last() =~= abilities@.take(i as int - 1));
                assert(prefix.last() == abilities@[i as int - 1]);
            }
            i -= 1;
            if abilities[i].is_hidden {
                return abilities[i].name.clone();
            }
        }
        proof {
            assert(abilities@.take(0).len() == 0);
        }
        NO_HIDDEN_ABILITY.to_owned()
    }
}

/// What becomes of a character of a name: a space stands for a hyphen, and
/// the signs for female and male for `f` and `m`.
pub open spec fn replaced(c: char) -> char {
    if c == ' ' {
        '-'
    } else if c == '\u{2640}' {
        'f'
    } else if c == '\u{2642}' {
        'm'
    } else {
        c
    }
}

/// The punctuation that is dropped from a name.
pub open spec fn is_dropped(c: char) -> bool {
    c == '\'' || c == ':' || c == '.'
}

/// The characters that a name of the service is made of.
pub open spec fn is_allowed(c: char) -> bool {
    ('a' <= c && c <= 'z') || c == '2' || c == '-'
}

/// The replacement of characters, as a function.
pub open spec fn replacing() -> spec_fn(char) -> char {
    |c: char| replaced(c)
}

/// The characters that are not dropped.
pub open spec fn keeping() -> spec_fn(char) -> bool {
    |c: char| !is_dropped(c)
}

/// A lower-case name with its characters replaced and its punctuation
/// dropped.
pub open spec fn normalized(lowered: Seq<char>) -> Seq<char> {
    lowered.map_values(replacing()).filter(keeping())
}

/// The normalized name has an acceptable length and holds nothing but
/// allowed characters.
pub open spec fn is_api_name(name: Seq<char>) -> bool {
    MIN_CHARS <= name.len() <= MAX_CHARS && forall|i: int|
        0 <= i < name.len() ==> is_allowed(#[trigger] name[i])
}

fn replace_char(c: char) -> (r: char)
    ensures
        r == replaced(c),
{
    if c == ' ' {
        '-'
    } else if c == '\u{2640}' {
        'f'
    } else if c == '\u{2642}' {
        'm'
    } else {
        c
    }
}

fn allowed_char(c: char) -> (r: bool)
    ensures
        r == is_allowed(c),
{
    let code: u32 = c as u32;
    (97 <= code && code <= 122) || c == '2' || c == '-'
}

/// Whether a lower-case name, once normalized, is a name of the service.
pub fn check_api_name(lowered: &str) -> (valid: bool)
    ensures
        valid == is_api_name(normalized(lowered@)),
{
    let len: usize = lowered.unicode_len();
    let mut kept: usize = 0;
    let mut i: usize = 0;
    proof {
        lowered@.take(0).map_values(replacing()).lemma_filter_len(keeping());
    }
    while i < len
        invariant
            i <= len,
            len == lowered@.len(),
            kept == normalized(lowered@.take(i as int)).len(),
            kept <= i,
            forall|j: int|
                0 <= j < kept ==> is_allowed(#[trigger] normalized(lowered@.take(i as int))[j]),
        decreases len - i,
    {
        let c: char = replace_char(lowered.get_char(i));
        proof {
            let before = lowered@.take(i as int);
            let after = lowered@.take(i as int + 1);
            assert(after =~= before.push(lowered@[i as int]));
            assert(after.map_values(replacing()) =~= before.map_values(replacing()).push(c));
            before.map_values(replacing()).lemma_filter_push(c, keeping());
        }
        if !(c == '\'' || c == ':' || c == '.') {
            if !allowed_char(c) {
                proof {
                    let after = normalized(lowered@.take(i as int + 1));
                    let whole = normalized(lowered@);
                    lemma_normalized_prefix(lowered@, i as int + 1);
                    assert(after[kept as int] == c);
                    assert(whole[kept as int] == c);
                }
                return false;
            }
            kept += 1;
        }
        i += 1;
    }
    assert(lowered@.take(i as int) =~= lowered@);
    MIN_CHARS <= kept && kept <= MAX_CHARS
}

/// What a prefix of a name is normalized to is a prefix of what the name is
/// normalized to.
pub proof fn lemma_normalized_prefix(lowered: Seq<char>, i: int)
    requires
        0 <= i <= lowered.len(),
    ensures
        normalized(lowered.take(i)).len() <= normalized(lowered).len(),
        forall|j: int|
            0 <= j < normalized(lowered.take(i)).len() ==> normalized(lowered.take(i))[j]
                == normalized(lowered)[j],
{
    let front = lowered.take(i).map_values(replacing());
    let back = lowered.skip(i).map_values(replacing());
    assert(lowered.map_values(replacing()) =~= front + back);
    Seq::filter_distributes_over_add(front, back, keeping());
}

/// Accepts a name if it can be the name of a pokemon, and hands it back as
/// it came. The name is judged in lower case, with spaces and the signs for
/// female and male replaced and its punctuation dropped.
pub fn convert_to_pokeapi_name(s: String) -> (result: PokeAPIResult)
    ensures
        is_api_name(normalized(lowercase_of(s@))) ==> result == Ok::<String, PokeAPIError>(s),
        !is_api_name(normalized(lowercase_of(s@))) ==> result == Err::<String, PokeAPIError>(
            PokeAPIError::InvalidPokeAPIName(s),
        ),
{
    let lowered = to_lowercase(s.as_str());
    if check_api_name(lowered.as_str()) {
        Ok(s)
    } else {
        Err(PokeAPIError::InvalidPokeAPIName(s))
    }
}

} // verus!
