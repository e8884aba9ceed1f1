//! Small verified helpers: string comparison and path validation.
use vstd::prelude::*;

use crate::codec::parse_exact;
use crate::codec::str_to_chars;

verus! {

/// Compares two string slices character by character.
pub fn str_eq(a: &str, b: &str) -> (r: bool)
    ensures
        r <==> a@ == b@,
{
    let na: usize = a.unicode_len();
    let nb: usize = b.unicode_len();
    if na != nb {
        proof {
            assert(a@ != b@);
        }
        return false;
    }
    let mut i: usize = 0;
    while i < na
        invariant
            i <= na,
            na == a@.len(),
            na == b@.len(),
            forall|t: int| 0 <= t < i ==> a@[t] == b@[t],
        decreases na - i,
    {
        if a.get_char(i) != b.get_char(i) {
            return false;
        }
        i = i + 1;
    }
    proof {
        assert(a@ =~= b@);
    }
    true
}

/// The path starts at the filesystem root.
pub open spec fn is_absolute(p: Seq<char>) -> bool {
    p.len() > 0 && p[0] == '/'
}

/// The path is the process-information root or lies under it.
pub open spec fn under_proc(p: Seq<char>) -> bool {
    &&& p.len() >= 5
    &&& p.subrange(0, 5) == seq!['/', 'p', 'r', 'o', 'c']
    &&& (p.len() == 5 || p[5] == '/')
}

/// An acceptable parent-domain path: absolute, and not reaching into the
/// process-information tree.
pub open spec fn parent_path_ok(p: Seq<char>) -> bool {
    is_absolute(p) && !under_proc(p)
}

/// Builds the forbidden prefix as a vector.
fn lit_proc() -> (r: Vec<char>)
    ensures
        r@ == seq!['/', 'p', 'r', 'o', 'c'],
{
    let mut r: Vec<char> = Vec::new();
    r.push('/');
    r.push('p');
    r.push('r');
    r.push('o');
    r.push('c');
    proof {
        assert(r@ =~= seq!['/', 'p', 'r', 'o', 'c']);
    }
    r
}

/// Forbids a relative path and any use of the process-information root
/// (that is, the parent domain's own view of the system).
pub fn check_parent_path(path: &str) -> (r: Result<(), String>)
    ensures
        r is Ok <==> parent_path_ok(path@),
        !is_absolute(path@) ==> (r matches Err(e) && e@ == "The path is not absolute"@),
        is_absolute(path@) && under_proc(path@) ==> (r matches Err(e) && e@
            == "Access denied to /proc"@),
{
    let s = str_to_chars(path);
    let n = s.len();
    if n == 0 || s[0] != '/' {
        return Err(String::from_str("The path is not absolute"));
    }
    let proc_prefix = lit_proc();
    if parse_exact(&s, 0, &proc_prefix) {
        if n == 5 {
            return Err(String::from_str("Access denied to /proc"));
        }
        proof {
            assert(s@[5] == s@.subrange(5, n as int)[0]);
        }
        if s[5] == '/' {
            return Err(String::from_str("Access denied to /proc"));
        }
        proof {
            assert(!under_proc(path@));
        }
        return Ok(());
    }
    proof {
        assert(!under_proc(path@));
    }
    Ok(())
}

} // verus!
