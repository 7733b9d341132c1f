//! The code-generation mode selector shared by the companion tooling.

use vstd::prelude::*;

verus! {

/// Codegeneration mode.
#[derive(Debug, Clone, Copy, PartialEq, Eq, Structural)]
pub enum Mode {
    /// Generate parsing code
    Parse,
    /// Generate compilation code
    Compile,
}

/// Parse a mode name: exactly "parse" or "compile" is accepted; anything
/// else is an error.
pub fn parse_mode(s: &str) -> (r: Result<Mode, &'static str>)
    ensures
        (r == Ok::<Mode, &'static str>(Mode::Parse)) <==> s@ == "parse"@,
        (r == Ok::<Mode, &'static str>(Mode::Compile)) <==> s@ == "compile"@,
        (r is Err) <==> (s@ != "parse"@ && s@ != "compile"@),
{
    proof {
        reveal_strlit("parse");
        reveal_strlit("compile");
    }
    let n = s.unicode_len();
    if n == 5 && s.get_char(0) == 'p' && s.get_char(1) == 'a' && s.get_char(2) == 'r'
        && s.get_char(3) == 's' && s.get_char(4) == 'e' {
        proof {
            assert(s@ =~= "parse"@);
        }
        Ok(Mode::Parse)
    } else if n == 7 && s.get_char(0) == 'c' && s.get_char(1) == 'o' && s.get_char(2) == 'm'
        && s.get_char(3) == 'p' && s.get_char(4) == 'i' && s.get_char(5) == 'l' && s.get_char(6)
        == 'e' {
        proof {
            assert(s@ =~= "compile"@);
        }
        Ok(Mode::Compile)
    } else {
        proof {
            assert(s@ != "parse"@) by {
                if s@ == "parse"@ {
                    assert(s@.len() == 5);
                    assert(s@[0] == 'p' && s@[1] == 'a' && s@[2] == 'r' && s@[3] == 's' && s@[4]
                        == 'e');
                }
            }
            assert(s@ != "compile"@) by {
                if s@ == "compile"@ {
                    assert(s@.len() == 7);
                    assert(s@[0] == 'c' && s@[1] == 'o' && s@[2] == 'm' && s@[3] == 'p' && s@[4]
                        == 'i' && s@[5] == 'l' && s@[6] == 'e');
                }
            }
        }
        Err("expected one of 'parse' or 'compile'")
    }
}

impl core::str::FromStr for Mode {
    type Err = &'static str;

    fn from_str(s: &str) -> Result<Mode, &'static str> {
        parse_mode(s)
    }
}

} // verus!
