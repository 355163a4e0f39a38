//! The comparison operators of the store's search queries: reading one from
//! its token and writing it back.

use vstd::prelude::*;
use vstd::string::*;

verus! {

/// A comparison in a search condition.
#[derive(Copy, Clone, Debug, PartialEq, Eq, Structural)]
pub enum SearchComparator {
    Equal,
    NotEqual,
    Regex,
    GreaterThan,
    LessThan,
    GreaterEqual,
    LessEqual,
}

/// The comparator a token names, if any.
pub open spec fn comparator_of_token(s: Seq<char>) -> Option<SearchComparator> {
    if s == "="@ {
        Some(SearchComparator::Equal)
    } else if s == "!="@ {
        Some(SearchComparator::NotEqual)
    } else if s == "~="@ {
        Some(SearchComparator::Regex)
    } else if s == "<"@ {
        Some(SearchComparator::LessThan)
    } else if s == "<="@ {
        Some(SearchComparator::LessEqual)
    } else if s == ">"@ {
        Some(SearchComparator::GreaterThan)
    } else if s == ">="@ {
        Some(SearchComparator::GreaterEqual)
    } else {
        None
    }
}

/// The token for a comparator.
pub open spec fn token_of_comparator(c: SearchComparator) -> Seq<char> {
    match c {
        SearchComparator::Equal => "="@,
        SearchComparator::NotEqual => "!="@,
        SearchComparator::Regex => "~="@,
        SearchComparator::GreaterThan => ">"@,
        SearchComparator::LessThan => "<"@,
        SearchComparator::GreaterEqual => ">="@,
        SearchComparator::LessEqual => "<="@,
    }
}

impl SearchComparator {
    /// Reads a comparator from its token.
    pub fn try_from(token: &str) -> (r: Option<SearchComparator>)
        ensures
            r == comparator_of_token(token@),
    {
        if crate::text::str_eq(token, "=") {
            Some(SearchComparator::Equal)
        } else if crate::text::str_eq(token, "!=") {
            Some(SearchComparator::NotEqual)
        } else if crate::text::str_eq(token, "~=") {
            Some(SearchComparator::Regex)
        } else if crate::text::str_eq(token, "<") {
            Some(SearchComparator::LessThan)
        } else if crate::text::str_eq(token, "<=") {
            Some(SearchComparator::LessEqual)
        } else if crate::text::str_eq(token, ">") {
            Some(SearchComparator::GreaterThan)
        } else if crate::text::str_eq(token, ">=") {
            Some(SearchComparator::GreaterEqual)
        } else {
            None
        }
    }

    /// Writes the comparator back as its token.
    pub fn as_token(&self) -> (r: String)
        ensures
            r@ == token_of_comparator(*self),
    {
        match self {
            SearchComparator::Equal => String::from_str("="),
            SearchComparator::NotEqual => String::from_str("!="),
            SearchComparator::Regex => String::from_str("~="),
            SearchComparator::GreaterThan => String::from_str(">"),
            SearchComparator::LessThan => String::from_str("<"),
            SearchComparator::GreaterEqual => String::from_str(">="),
            SearchComparator::LessEqual => String::from_str("<="),
        }
    }
}

/// Reading the written token back yields the same comparator: the two
/// conversions are inverse.
pub proof fn lemma_comparator_round_trip(c: SearchComparator)
    ensures
        comparator_of_token(token_of_comparator(c)) == Some(c),
{
    reveal_strlit("=");
    reveal_strlit("!=");
    reveal_strlit("~=");
    reveal_strlit("<");
    reveal_strlit("<=");
    reveal_strlit(">");
    reveal_strlit(">=");
    match c {
        SearchComparator::Equal => {
            assert(comparator_of_token("="@) == Some(SearchComparator::Equal));
        },
        SearchComparator::NotEqual => {
            assert("!="@.len() == 2);
            assert("="@.len() == 1);
            assert(comparator_of_token("!="@) == Some(SearchComparator::NotEqual));
        },
        SearchComparator::Regex => {
            assert("~="@[0] == '~' && "!="@[0] == '!' && "="@.len() == 1);
            assert(comparator_of_token("~="@) == Some(SearchComparator::Regex));
        },
        SearchComparator::GreaterThan => {
            assert(">"@[0] == '>' && "="@[0] == '=' && "<"@[0] == '<');
            assert(">"@.len() == 1 && "!="@.len() == 2 && "~="@.len() == 2 && "<="@.len() == 2);
            assert(comparator_of_token(">"@) == Some(SearchComparator::GreaterThan));
        },
        SearchComparator::LessThan => {
            assert("<"@[0] == '<' && "="@[0] == '=');
            assert("<"@.len() == 1 && "!="@.len() == 2 && "~="@.len() == 2);
            assert(comparator_of_token("<"@) == Some(SearchComparator::LessThan));
        },
        SearchComparator::GreaterEqual => {
            assert(">="@[0] == '>' && "!="@[0] == '!' && "~="@[0] == '~' && "<="@[0] == '<'
                && "<"@[0] == '<');
            assert(">="@.len() == 2 && "="@.len() == 1 && "<"@.len() == 1);
            assert(comparator_of_token(">="@) == Some(SearchComparator::GreaterEqual));
        },
        SearchComparator::LessEqual => {
            assert("<="@[0] == '<' && "!="@[0] == '!' && "~="@[0] == '~');
            assert("<="@.len() == 2 && "="@.len() == 1);
            assert(comparator_of_token("<="@) == Some(SearchComparator::LessEqual));
        },
    }
}

} // verus!
