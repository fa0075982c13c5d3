use vstd::prelude::*;
use crate::text::{chars_of, lowercase, lower_of, same_chars};

verus! {

/// The colour of a wine, as the catalog and the recommendations record it.
#[derive(Debug, Clone, Copy, PartialEq, Eq, Structural)]
pub enum WineColorEnum {
    Red,
    White,
    Pink,
}

/// The lowercase name under which a colour is written.
pub open spec fn color_name(c: WineColorEnum) -> Seq<char> {
    match c {
        WineColorEnum::Red => seq!['r', 'e', 'd'],
        WineColorEnum::White => seq!['w', 'h', 'i', 't', 'e'],
        WineColorEnum::Pink => seq!['p', 'i', 'n', 'k'],
    }
}


/// The database type under which colours are stored.
#[allow(non_camel_case_types)]
pub struct Wine_color;

/// The reason a text names no colour.
#[derive(Debug)]
pub enum ColorError {
    /// The text, as it was given, names no colour.
    Unrecognized(String),
}

impl PartialEq for ColorError {
    fn eq(&self, o: &ColorError) -> (r: bool) {
        match (self, o) {
            (ColorError::Unrecognized(a), ColorError::Unrecognized(b)) => a.eq(b),
        }
    }
}

impl vstd::std_specs::cmp::PartialEqSpecImpl for ColorError {
    open spec fn obeys_eq_spec() -> bool {
        true
    }

    open spec fn eq_spec(&self, o: &ColorError) -> bool {
        match (self, o) {
            (ColorError::Unrecognized(a), ColorError::Unrecognized(b)) => a@ == b@,
        }
    }
}

/// The colour that a lowercase name stands for, if any.
pub open spec fn color_of_name(s: Seq<char>) -> Option<WineColorEnum> {
    if s == color_name(WineColorEnum::Red) {
        Some(WineColorEnum::Red)
    } else if s == color_name(WineColorEnum::White) {
        Some(WineColorEnum::White)
    } else if s == color_name(WineColorEnum::Pink) {
        Some(WineColorEnum::Pink)
    } else {
        None
    }
}

impl WineColorEnum {
    /// The lowercase name of the colour.
    pub fn name_chars(&self) -> (r: Vec<char>)
        ensures
            r@ == color_name(*self),
    {
        let r = match self {
            WineColorEnum::Red => vec!['r', 'e', 'd'],
            WineColorEnum::White => vec!['w', 'h', 'i', 't', 'e'],
            WineColorEnum::Pink => vec!['p', 'i', 'n', 'k'],
        };
        assert(r@ =~= color_name(*self));
        r
    }

    /// The lowercase name under which the colour is written and stored.
    pub fn as_bytes_name(&self) -> (r: Vec<u8>)
        ensures
            r@.len() == color_name(*self).len(),
            forall|i: int| 0 <= i < r@.len() ==> r@[i] as char == color_name(*self)[i],
    {
        match self {
            WineColorEnum::Red => vec![114u8, 101, 100],
            WineColorEnum::White => vec![119u8, 104, 105, 116, 101],
            WineColorEnum::Pink => vec![112u8, 105, 110, 107],
        }
    }

    /// The colour stored under the given bytes, if any.
    pub fn from_bytes_name(b: &[u8]) -> (r: Option<WineColorEnum>)
        ensures
            r matches Some(c) ==> b@.len() == color_name(c).len() && forall|i: int|
                0 <= i < b@.len() ==> b@[i] as char == color_name(c)[i],
            r is None ==> forall|c: WineColorEnum| !(b@.len() == color_name(c).len() && forall|i: int|
                0 <= i < b@.len() ==> b@[i] as char == #[trigger] color_name(c)[i]),
    {
        let mut v: Vec<char> = Vec::new();
        let mut i: usize = 0;
        while i < b.len()
            invariant
                i <= b@.len(),
                v@.len() == i,
                forall|j: int| 0 <= j < i ==> v@[j] == b@[j] as char,
            decreases b.len() - i,
        {
            v.push(b[i] as char);
            i = i + 1;
        }
        let r = parse_wine_color_chars(&v);
        match r {
            Some(c) => {
                assert forall|i: int| 0 <= i < b@.len() implies b@[i] as char == color_name(c)[i] by {
                    assert(v@[i] == b@[i] as char);
                }
                Some(c)
            },
            None => {
                assert forall|c: WineColorEnum| !(b@.len() == color_name(c).len() && forall|i: int|
                    0 <= i < b@.len() ==> b@[i] as char == #[trigger] color_name(c)[i]) by {
                    if b@.len() == color_name(c).len() && forall|i: int|
                        0 <= i < b@.len() ==> b@[i] as char == #[trigger] color_name(c)[i] {
                        assert(v@ =~= color_name(c));
                    }
                }
                None
            },
        }
    }
}

fn parse_wine_color_chars(v: &Vec<char>) -> (r: Option<WineColorEnum>)
    ensures
        r == color_of_name(v@),
{
    if same_chars(v, &WineColorEnum::Red.name_chars()) {
        Some(WineColorEnum::Red)
    } else if same_chars(v, &WineColorEnum::White.name_chars()) {
        Some(WineColorEnum::White)
    } else if same_chars(v, &WineColorEnum::Pink.name_chars()) {
        Some(WineColorEnum::Pink)
    } else {
        None
    }
}

/// The colour that a lowercase name stands for: `red`, `white` or `pink`,
/// matched exactly; otherwise an error that carries the text.
pub fn parse_wine_color(string: &str) -> (r: Result<WineColorEnum, ColorError>)
    ensures
        r is Ok <==> color_of_name(string@) is Some,
        r matches Ok(c) ==> color_of_name(string@) == Some(c),
        r matches Err(ColorError::Unrecognized(v)) ==> v@ == string@,
{
    match parse_wine_color_chars(&chars_of(string)) {
        Some(c) => Ok(c),
        None => Err(ColorError::Unrecognized(string.to_owned())),
    }
}

/// The colour that a name stands for in any case: the name is lowercased first.
/// The error carries the text as it was given.
pub fn parse_color_any_case(string: &str) -> (r: Result<WineColorEnum, ColorError>)
    ensures
        r is Ok <==> color_of_name(lower_of(string@)) is Some,
        r matches Ok(c) ==> color_of_name(lower_of(string@)) == Some(c),
        r matches Err(ColorError::Unrecognized(v)) ==> v@ == string@,
{
    let lower = lowercase(string);
    match parse_wine_color_chars(&chars_of(lower.as_str())) {
        Some(c) => Ok(c),
        None => Err(ColorError::Unrecognized(string.to_owned())),
    }
}

} // verus!
