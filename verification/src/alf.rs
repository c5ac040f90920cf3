use vstd::prelude::*;

use crate::error::AsmError;

verus! {

/// A character the ALF pseudo-operation accepts: the MIX alphabet as far
/// as it maps onto ASCII — upper-case letters, digits, space, and the
/// punctuation set `.,()+-*/=$<>@;:'`.
pub open spec fn is_mix_char(c: char) -> bool {
    ||| ('A' <= c && c <= 'Z')
    ||| ('0' <= c && c <= '9')
    ||| c == ' '
    ||| c == '.'
    ||| c == ','
    ||| c == '('
    ||| c == ')'
    ||| c == '+'
    ||| c == '-'
    ||| c == '*'
    ||| c == '/'
    ||| c == '='
    ||| c == '$'
    ||| c == '<'
    ||| c == '>'
    ||| c == '@'
    ||| c == ';'
    ||| c == ':'
    ||| c == '\''
}

pub open spec fn all_mix_chars(s: Seq<char>) -> bool {
    forall|i: int| 0 <= i < s.len() ==> is_mix_char(#[trigger] s[i])
}

/// The payload of ALF character data: the text after two leading blanks,
/// or after a single leading blank (in which case the payload starts with
/// a non-blank).
pub open spec fn spec_alf_data(s: Seq<char>) -> Option<Seq<char>> {
    if s.len() >= 2 && s[0] == ' ' && s[1] == ' ' {
        Some(s.subrange(2, s.len() as int))
    } else if s.len() >= 1 && s[0] == ' ' {
        Some(s.subrange(1, s.len() as int))
    } else {
        None
    }
}

/// The ALF pseudo-operation: assembles one word holding five raw MIX
/// characters.
#[derive(Debug, PartialEq)]
pub struct Alf {
    pub chars: Vec<char>,
}

impl Alf {
    /// Parses ALF character data: one or two leading blanks, then exactly
    /// five characters of the MIX alphabet.
    pub fn from_char_data(s: &str) -> (r: Result<Alf, AsmError>)
        ensures
            r is Ok <==> (spec_alf_data(s@) matches Some(d) && d.len() == 5 && all_mix_chars(d)),
            r matches Ok(a) ==> Some(a.chars@) == spec_alf_data(s@),
            r matches Err(e) ==> e == if spec_alf_data(s@) is None {
                AsmError::AlfLeadingSpaces
            } else if spec_alf_data(s@).unwrap().len() != 5 {
                AsmError::AlfCharCount
            } else {
                AsmError::AlfInvalidChar
            },
    {
        let n = s.unicode_len();
        let start: usize;
        if n >= 2 && s.get_char(0) == ' ' && s.get_char(1) == ' ' {
            start = 2;
        } else if n >= 1 && s.get_char(0) == ' ' {
            start = 1;
        } else {
            return Err(AsmError::AlfLeadingSpaces);
        }
        if n - start != 5 {
            return Err(AsmError::AlfCharCount);
        }
        let mut chars: Vec<char> = Vec::new();
        let mut i: usize = start;
        while i < n
            invariant
                start <= i <= n,
                n == s@.len(),
                n - start == 5,
                1 <= start <= 2,
                spec_alf_data(s@) == Some(s@.subrange(start as int, n as int)),
                chars@ == s@.subrange(start as int, i as int),
                forall|j: int| start <= j < i ==> is_mix_char(#[trigger] s@[j]),
            decreases n - i,
        {
            let c = s.get_char(i);
            if !Alf::is_valid_mix_character(c) {
                proof {
                    let d = s@.subrange(start as int, n as int);
                    assert(d[i - start] == s@[i as int]);
                }
                return Err(AsmError::AlfInvalidChar);
            }
            chars.push(c);
            proof {
                assert(chars@ =~= s@.subrange(start as int, i + 1 as int));
            }
            i += 1;
        }
        proof {
            assert(chars@ =~= s@.subrange(start as int, n as int));
        }
        Ok(Alf { chars })
    }

    /// Whether `c` belongs to the MIX alphabet.
    pub fn is_valid_mix_character(c: char) -> (r: bool)
        ensures
            r == is_mix_char(c),
    {
        ('A' <= c && c <= 'Z') || ('0' <= c && c <= '9') || c == ' ' || c == '.' || c == ','
            || c == '(' || c == ')' || c == '+' || c == '-' || c == '*' || c == '/' || c == '='
            || c == '$' || c == '<' || c == '>' || c == '@' || c == ';' || c == ':' || c == '\''
    }
}

} // verus!
