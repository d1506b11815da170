//! Validation of filter scripts. A filter is script text that must compile
//! and define `filter`, a function of one track that returns whether the
//! track is excluded from sync.

use vstd::prelude::*;

verus! {

#[derive(Debug, Clone)]
pub enum Error {
    /// The script does not compile; the compiler's message.
    ParseError(String),
    /// The script failed while it ran; the runtime's message.
    RunError(String),
    /// The script compiles but defines no `filter` function of one track.
    MissingFilter,
}

impl Error {
    pub open spec fn spec_message(self) -> Seq<char> {
        match self {
            Error::ParseError(m) => m@,
            Error::RunError(m) => m@,
            Error::MissingFilter => "no function filter(track) is defined"@,
        }
    }

    /// The text that describes the error.
    pub fn message(&self) -> (r: String)
        ensures
            r@ == self.spec_message(),
    {
        match self {
            Error::ParseError(m) => m.clone(),
            Error::RunError(m) => m.clone(),
            Error::MissingFilter => String::from_str("no function filter(track) is defined"),
        }
    }
}

/// Names what compiling a script gives: `None` when it does not compile,
/// else the name and the number of parameters of each function it defines.
pub uninterp spec fn compiled_functions(script: Seq<char>) -> Option<Set<(Seq<char>, nat)>>;

/// The plain view of a list of function signatures.
pub open spec fn signatures(v: Seq<(String, usize)>) -> Seq<(Seq<char>, nat)> {
    v.map_values(|f: (String, usize)| (f.0@, f.1 as nat))
}

/// Relies on `rhai::Engine::compile`, on an engine with the default
/// configuration, and on `AST::iter_functions` to list the script functions
/// that the compiled script defines. Whether it compiles, and which
/// functions it defines, depend on the text alone; the order of the list
/// is not relied on.
#[verifier::external_body]
fn compile_script(script: &str) -> (r: Result<Vec<(String, usize)>, String>)
    ensures
        r is Ok <==> compiled_functions(script@) is Some,
        r matches Ok(v) ==> signatures(v@).to_set() == compiled_functions(script@)->0,
{
    match rhai::Engine::new().compile(script) {
        Ok(ast) => Ok(ast.iter_functions().map(|f| (f.name.to_string(), f.params.len())).collect()),
        Err(e) => Err(e.to_string()),
    }
}

/// The name of the function that a filter script must define.
pub open spec fn filter_fn_name() -> Seq<char> {
    seq!['f', 'i', 'l', 't', 'e', 'r']
}

/// Whether a set of signatures holds `filter` with one parameter.
pub open spec fn has_filter_fn(fns: Set<(Seq<char>, nat)>) -> bool {
    fns.contains((filter_fn_name(), 1nat))
}

/// Whether a script is a usable filter.
pub open spec fn valid_filter(script: Seq<char>) -> bool {
    compiled_functions(script) matches Some(fns) && has_filter_fn(fns)
}

fn is_filter_name(name: &String) -> (r: bool)
    ensures
        r == (name@ == filter_fn_name()),
{
    let n = name.as_str().unicode_len();
    if n != 6 {
        return false;
    }
    let s = name.as_str();
    let r = s.get_char(0) == 'f' && s.get_char(1) == 'i' && s.get_char(2) == 'l' && s.get_char(3) == 't'
        && s.get_char(4) == 'e' && s.get_char(5) == 'r';
    assert(r ==> name@ =~= filter_fn_name());
    r
}

/// Whether the signatures hold `filter` with one parameter.
pub fn defines_filter(fns: &Vec<(String, usize)>) -> (r: bool)
    ensures
        r == has_filter_fn(signatures(fns@).to_set()),
{
    let mut i: usize = 0;
    while i < fns.len()
        invariant
            i <= fns@.len(),
            forall|j: int| 0 <= j < i ==> signatures(fns@)[j] != (filter_fn_name(), 1nat),
        decreases fns.len() - i,
    {
        if is_filter_name(&fns[i].0) && fns[i].1 == 1 {
            assert(signatures(fns@)[i as int] == (filter_fn_name(), 1nat));
            return true;
        }
        i = i + 1;
    }
    assert(!signatures(fns@).contains((filter_fn_name(), 1nat))) by {
        if signatures(fns@).contains((filter_fn_name(), 1nat)) {
            let j = choose|j: int| 0 <= j < signatures(fns@).len() && signatures(fns@)[j] == (filter_fn_name(), 1nat);
            assert(j < i);
        }
    }
    false
}

/// Checks that each script compiles and defines `filter` of one track. The
/// first script that is not a usable filter gives the error: `ParseError`
/// when it does not compile, `MissingFilter` when it lacks the function.
pub fn check(scripts: Vec<String>) -> (r: Result<(), Error>)
    ensures
        r is Ok <==> forall|i: int| 0 <= i < scripts@.len() ==> valid_filter(#[trigger] scripts@[i]@),
        r is Err ==> exists|i: int|
            0 <= i < scripts@.len() && !valid_filter(#[trigger] scripts@[i]@) && (forall|j: int|
                0 <= j < i ==> valid_filter(#[trigger] scripts@[j]@)) && (compiled_functions(scripts@[i]@) is None
                <==> r matches Err(Error::ParseError(_))),
        r matches Err(e) ==> !(e is RunError),
{
    let mut i: usize = 0;
    while i < scripts.len()
        invariant
            i <= scripts@.len(),
            forall|j: int| 0 <= j < i ==> valid_filter(#[trigger] scripts@[j]@),
        decreases scripts.len() - i,
    {
        match compile_script(scripts[i].as_str()) {
            Err(msg) => {
                let r = Err(Error::ParseError(msg));
                assert(!valid_filter(scripts@[i as int]@));
                return r;
            },
            Ok(fns) => {
                if !defines_filter(&fns) {
                    assert(!valid_filter(scripts@[i as int]@));
                    return Err(Error::MissingFilter);
                }
            },
        }
        i = i + 1;
    }
    Ok(())
}

} // verus!
