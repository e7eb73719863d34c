//! Unit tests that the kernel finds in its `.init_array` section and runs.
use vstd::prelude::*;

verus! {

/// A unit test: the function to run and the name to report.
#[allow(non_camel_case_types)]
pub struct __UnitTest<F> {
    pub func: F,
    pub name: &'static str,
}

impl<F> __UnitTest<F> {
    /// The test `func`, reported under `name`.
    pub fn new(func: F, name: &'static str) -> (t: Self)
        ensures
            t.func == func,
            t.name == name,
    {
        __UnitTest { func, name }
    }
}

} // verus!

verus! {

//====================================================================
// THE UNIT TEST ATTRIBUTE
//====================================================================

/// A token at the top level of the item that carries the unit test attribute.
pub enum UnitToken {
    /// An identifier or keyword, by its characters.
    Ident(Vec<char>),
    /// A punctuation character.
    Punct(char),
    /// An empty parenthesised group: `()`.
    EmptyParens,
    /// Any other token: a literal or another group.
    Other,
}

/// Why an item cannot be a unit test.
#[derive(Debug, Clone, Copy, PartialEq, Eq, Structural)]
pub enum UnitTestError {
    /// The item is not of the form `fn <name>() { .. }`.
    Format,
    /// The function has generic parameters.
    Generic,
}

/// The token is the keyword `fn`.
pub open spec fn is_fn_keyword(t: UnitToken) -> bool {
    t matches UnitToken::Ident(s) && s@ == seq!['f', 'n']
}

/// Token `i` is the first `fn` keyword.
pub open spec fn is_first_fn(tokens: Seq<UnitToken>, i: int) -> bool {
    &&& 0 <= i < tokens.len()
    &&& is_fn_keyword(tokens[i])
    &&& forall|j: int| 0 <= j < i ==> !is_fn_keyword(#[trigger] tokens[j])
}

/// What the attribute makes of the item whose first `fn` keyword is token
/// `i`: the name that follows it, when an empty parameter list follows the
/// name; a generic function when `<` follows it; otherwise a malformed item.
pub open spec fn unit_outcome(tokens: Seq<UnitToken>, i: int) -> Result<Seq<char>, UnitTestError> {
    if i + 1 < tokens.len() && tokens[i + 1] is Ident {
        let name = tokens[i + 1]->Ident_0@;
        if i + 2 < tokens.len() && tokens[i + 2] is EmptyParens {
            Ok(name)
        } else if i + 2 < tokens.len() && tokens[i + 2] == UnitToken::Punct('<') {
            Err(UnitTestError::Generic)
        } else {
            Err(UnitTestError::Format)
        }
    } else {
        Err(UnitTestError::Format)
    }
}

/// The characters of a name result.
pub open spec fn name_result(r: Result<Vec<char>, UnitTestError>) -> Result<Seq<char>, UnitTestError> {
    match r {
        Ok(v) => Ok(v@),
        Err(e) => Err(e),
    }
}

/// The name under which a test function is reported: its identifier with
/// every `_` turned into `-`.
pub open spec fn report_name(name: Seq<char>) -> Seq<char> {
    name.map_values(|c: char| if c == '_' { '-' } else { c })
}

/// Finds the name of the function that the unit test attribute is put on.
pub fn unit_test_function(tokens: &Vec<UnitToken>) -> (res: Result<Vec<char>, UnitTestError>)
    ensures
        (forall|i: int| 0 <= i < tokens@.len() ==> !is_fn_keyword(#[trigger] tokens@[i]))
            ==> res == Err::<Vec<char>, UnitTestError>(UnitTestError::Format),
        forall|i: int| is_first_fn(tokens@, i) ==> name_result(res) == unit_outcome(tokens@, i),
{
    let len = tokens.len();
    let mut i: usize = 0;
    while i < len
        invariant
            i <= len,
            len == tokens@.len(),
            forall|j: int| 0 <= j < i ==> !is_fn_keyword(#[trigger] tokens@[j]),
        decreases len - i,
    {
        let is_fn = match &tokens[i] {
            UnitToken::Ident(s) => s.len() == 2 && s[0] == 'f' && s[1] == 'n',
            _ => false,
        };
        proof {
            if is_fn_keyword(tokens@[i as int]) {
                let s = tokens@[i as int]->Ident_0;
                assert(s@ == seq!['f', 'n']);
                assert(s@[0] == 'f' && s@[1] == 'n');
            }
            if is_fn {
                let s = tokens@[i as int]->Ident_0;
                assert(s@ =~= seq!['f', 'n']);
            }
        }
        if is_fn {
            assert(is_first_fn(tokens@, i as int));
            if i + 1 >= len {
                return Err(UnitTestError::Format);
            }
            let name = match &tokens[i + 1] {
                UnitToken::Ident(s) => s.clone(),
                _ => {
                    return Err(UnitTestError::Format);
                },
            };
            assert(name@ == tokens@[i + 1]->Ident_0@);
            if i + 2 >= len {
                return Err(UnitTestError::Format);
            }
            return match &tokens[i + 2] {
                UnitToken::EmptyParens => Ok(name),
                UnitToken::Punct(p) => if *p == '<' {
                    Err(UnitTestError::Generic)
                } else {
                    Err(UnitTestError::Format)
                },
                _ => Err(UnitTestError::Format),
            };
        }
        i += 1;
    }
    Err(UnitTestError::Format)
}

/// The name under which a test function is reported.
pub fn test_report_name(name: &Vec<char>) -> (out: Vec<char>)
    ensures
        out@ == report_name(name@),
{
    let mut out: Vec<char> = Vec::new();
    let mut i: usize = 0;
    while i < name.len()
        invariant
            i <= name@.len(),
            out@ == report_name(name@.take(i as int)),
        decreases name@.len() - i,
    {
        let c = name[i];
        out.push(if c == '_' { '-' } else { c });
        i += 1;
        assert(report_name(name@.take(i as int)) =~= report_name(name@.take(i - 1)).push(if c == '_' { '-' } else { c }));
    }
    assert(name@.take(name@.len() as int) =~= name@);
    out
}

} // verus!
