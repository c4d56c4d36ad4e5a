use vstd::prelude::*;
use vstd::string::StringExecFns;

verus! {

/// The text that opens every greeting.
pub open spec fn greeting_prefix() -> Seq<char> {
    seq!['H', 'e', 'l', 'l', 'o', ',', ' ']
}

/// The greeting returned for `name`: the prefix, the name, then a fixed closing sentence.
pub open spec fn greeting_of(name: Seq<char>) -> Seq<char> {
    greeting_prefix() + name + "! You've been greeted from Rust!"@
}

/// Smoke-test command of the desktop shell: greets `name`.
pub fn greet(name: &str) -> (r: String)
    ensures
        r@ == greeting_of(name@),
{
    let mut r = String::from_str("Hello, ");
    r.append(name);
    r.append("! You've been greeted from Rust!");
    proof {
        reveal_strlit("Hello, ");
        assert(r@ =~= greeting_of(name@));
    }
    r
}

} // verus!
