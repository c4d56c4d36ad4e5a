use vstd::prelude::*;
use vstd::string::StrSliceExecFns;
use vstd::string::StringExecFns;

verus! {

/// The opening words of every statement the registry holds.
pub open spec fn create_prefix() -> Seq<char> {
    "CREATE TABLE IF NOT EXISTS "@
}

/// Characters that may appear in an unquoted table name.
pub open spec fn is_ident_char(c: char) -> bool {
    ('a' <= c && c <= 'z') || ('A' <= c && c <= 'Z') || ('0' <= c && c <= '9') || c == '_'
}

/// The index just past the run of name characters of `s` that starts at `i`.
pub open spec fn ident_end(s: Seq<char>, i: int) -> int
    decreases s.len() - i,
{
    if 0 <= i < s.len() && is_ident_char(s[i]) {
        ident_end(s, i + 1)
    } else {
        i
    }
}

/// The table that the statement `s` creates: `s` opens with the
/// create-if-absent words, and a non-empty name follows them directly.
pub open spec fn created_table_spec(s: Seq<char>) -> Option<Seq<char>> {
    let p = create_prefix().len() as int;
    if s.len() >= p && s.subrange(0, p) == create_prefix() && ident_end(s, p) > p {
        Some(s.subrange(p, ident_end(s, p)))
    } else {
        None
    }
}

/// A run of name characters that stops at a non-name character, or at the end.
pub proof fn lemma_ident_end(s: Seq<char>, i: int, j: int)
    requires
        0 <= i <= j <= s.len(),
        forall|k: int| i <= k < j ==> is_ident_char(#[trigger] s[k]),
        j == s.len() || !is_ident_char(s[j]),
    ensures
        ident_end(s, i) == j,
    decreases j - i,
{
    if i < j {
        lemma_ident_end(s, i + 1, j);
    }
}

/// Bounds of the name run.
pub proof fn lemma_ident_end_bounds(s: Seq<char>, i: int)
    requires
        0 <= i <= s.len(),
    ensures
        i <= ident_end(s, i) <= s.len(),
        forall|k: int| i <= k < ident_end(s, i) ==> is_ident_char(#[trigger] s[k]),
    decreases s.len() - i,
{
    if i < s.len() && is_ident_char(s[i]) {
        lemma_ident_end_bounds(s, i + 1);
    }
}

fn is_ident(c: char) -> (r: bool)
    ensures
        r == is_ident_char(c),
{
    ('a' <= c && c <= 'z') || ('A' <= c && c <= 'Z') || ('0' <= c && c <= '9') || c == '_'
}

/// Reads the name of the table that a create-if-absent statement makes;
/// `None` for any other statement.
pub fn created_table(sql: &str) -> (r: Option<String>)
    ensures
        match r {
            Some(t) => created_table_spec(sql@) == Some(t@),
            None => created_table_spec(sql@) is None,
        },
{
    let prefix = "CREATE TABLE IF NOT EXISTS ";
    proof {
        reveal_strlit("CREATE TABLE IF NOT EXISTS ");
    }
    let n = sql.unicode_len();
    let p = prefix.unicode_len();
    if n < p {
        return None;
    }
    let mut i: usize = 0;
    while i < p
        invariant
            p == create_prefix().len(),
            prefix@ == create_prefix(),
            n == sql@.len(),
            p <= n,
            i <= p,
            forall|k: int| 0 <= k < i ==> sql@[k] == create_prefix()[k],
        decreases p - i,
    {
        if sql.get_char(i) != prefix.get_char(i) {
            proof {
                assert(sql@.subrange(0, p as int)[i as int] != create_prefix()[i as int]);
            }
            return None;
        }
        i = i + 1;
    }
    proof {
        assert(sql@.subrange(0, p as int) =~= create_prefix());
        lemma_ident_end_bounds(sql@, p as int);
    }
    let mut j: usize = p;
    while j < n && is_ident(sql.get_char(j))
        invariant
            p <= j <= n,
            n == sql@.len(),
            ident_end(sql@, p as int) == ident_end(sql@, j as int),
        decreases n - j,
    {
        j = j + 1;
    }
    if j == p {
        return None;
    }
    let name = sql.substring_char(p, j);
    Some(String::from_str(name))
}

} // verus!
