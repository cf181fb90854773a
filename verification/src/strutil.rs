//! String helpers shared by the registry and the correlation engine:
//! the composite identifier of a tracked delegation, string equality over
//! character sequences, and decimal rendering of tick counters.

use vstd::prelude::*;
use vstd::string::StringExecFns;

verus! {

/// The key under which a delegation is tracked: the owning session's
/// identifier, a `':'` separator, and the tool invocation's identifier.
pub open spec fn composite_id_spec(session: Seq<char>, tool: Seq<char>) -> Seq<char> {
    session + seq![':'] + tool
}

/// Equality of two string slices, stated over their character sequences.
pub fn str_eq(a: &str, b: &str) -> (r: bool)
    ensures
        r == (a@ == b@),
{
    let sa: String = a.to_owned();
    let sb: String = b.to_owned();
    sa == sb
}

/// Builds the composite identifier `session + ":" + tool`.
pub fn composite_id(session: &str, tool: &str) -> (r: String)
    ensures
        r@ == composite_id_spec(session@, tool@),
{
    let mut s: String = session.to_owned();
    s.append(":");
    s.append(tool);
    proof {
        reveal_strlit(":");
        assert(s@ =~= composite_id_spec(session@, tool@));
    }
    s
}

/// The decimal digit for one place value.
pub open spec fn digit_char(d: int) -> char {
    if d == 0 {
        '0'
    } else if d == 1 {
        '1'
    } else if d == 2 {
        '2'
    } else if d == 3 {
        '3'
    } else if d == 4 {
        '4'
    } else if d == 5 {
        '5'
    } else if d == 6 {
        '6'
    } else if d == 7 {
        '7'
    } else if d == 8 {
        '8'
    } else {
        '9'
    }
}

/// The decimal rendering of a non-negative integer, most significant digit
/// first.
pub open spec fn dec_spec(n: int) -> Seq<char>
    decreases n,
{
    if n < 10 {
        seq![digit_char(n)]
    } else {
        dec_spec(n / 10).push(digit_char(n % 10))
    }
}

fn digit_str(d: u64) -> (r: String)
    requires
        d < 10,
    ensures
        r@ == seq![digit_char(d as int)],
{
    let s: &str = if d == 0 {
        "0"
    } else if d == 1 {
        "1"
    } else if d == 2 {
        "2"
    } else if d == 3 {
        "3"
    } else if d == 4 {
        "4"
    } else if d == 5 {
        "5"
    } else if d == 6 {
        "6"
    } else if d == 7 {
        "7"
    } else if d == 8 {
        "8"
    } else {
        "9"
    };
    proof {
        reveal_strlit("0");
        reveal_strlit("1");
        reveal_strlit("2");
        reveal_strlit("3");
        reveal_strlit("4");
        reveal_strlit("5");
        reveal_strlit("6");
        reveal_strlit("7");
        reveal_strlit("8");
        reveal_strlit("9");
        assert(s@ =~= seq![digit_char(d as int)]);
    }
    s.to_owned()
}

/// Renders an integer in decimal, exactly as `dec_spec` states.
pub fn u64_to_string(n: u64) -> (r: String)
    ensures
        r@ == dec_spec(n as int),
    decreases n,
{
    if n < 10 {
        digit_str(n)
    } else {
        let mut s = u64_to_string(n / 10);
        let d = digit_str(n % 10);
        s.append(d.as_str());
        proof {
            assert(s@ =~= dec_spec(n as int));
        }
        s
    }
}

/// Within one session, distinct tool identifiers always yield distinct
/// composite identifiers: the session prefix and separator have the same
/// length on both sides, so a collision would force the tool parts to agree.
pub proof fn lemma_composite_id_injective(session: Seq<char>, t1: Seq<char>, t2: Seq<char>)
    ensures
        t1 != t2 ==> composite_id_spec(session, t1) != composite_id_spec(session, t2),
{
    let a = composite_id_spec(session, t1);
    let b = composite_id_spec(session, t2);
    if a == b {
        assert(a.len() == session.len() + 1 + t1.len());
        assert(b.len() == session.len() + 1 + t2.len());
        assert(t1.len() == t2.len());
        assert forall|i: int| 0 <= i < t1.len() implies t1[i] == t2[i] by {
            assert(a[session.len() + 1 + i] == t1[i]);
            assert(b[session.len() + 1 + i] == t2[i]);
        }
        assert(t1 =~= t2);
    }
}

} // verus!
