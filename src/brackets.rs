//! Checking that the brackets of a text are balanced.
use vstd::prelude::*;

verus! {

#[derive(PartialEq, Eq, Clone, Copy, Structural)]
pub enum Brace {
    Paren,
    Bracket,
    Curly,
}

/// Which side of which brace a character is.
pub enum Side {
    Left(Brace),
    Right(Brace),
}

pub open spec fn side_spec(c: char) -> Option<Side> {
    if c == '{' {
        Some(Side::Left(Brace::Curly))
    } else if c == '}' {
        Some(Side::Right(Brace::Curly))
    } else if c == '[' {
        Some(Side::Left(Brace::Bracket))
    } else if c == ']' {
        Some(Side::Right(Brace::Bracket))
    } else if c == '(' {
        Some(Side::Left(Brace::Paren))
    } else if c == ')' {
        Some(Side::Right(Brace::Paren))
    } else {
        None
    }
}

/// The braces still open after reading `s` from the left, innermost last, or `None`
/// once a closing brace did not match the innermost open one.
pub open spec fn open_braces(s: Seq<char>) -> Option<Seq<Brace>>
    decreases s.len(),
{
    if s.len() == 0 {
        Some(Seq::empty())
    } else {
        match open_braces(s.drop_last()) {
            None => None,
            Some(st) => match side_spec(s.last()) {
                Some(Side::Left(b)) => Some(st.push(b)),
                Some(Side::Right(b)) => if st.len() > 0 && st.last() == b {
                    Some(st.drop_last())
                } else {
                    None
                },
                None => Some(st),
            },
        }
    }
}

/// Once a mismatch is found, no continuation repairs it.
proof fn lemma_mismatch_stays(s: Seq<char>, k: int)
    requires
        0 <= k <= s.len(),
        open_braces(s.subrange(0, k)) is None,
    ensures
        open_braces(s) is None,
    decreases s.len() - k,
{
    if k < s.len() {
        assert(s.subrange(0, k + 1).drop_last() =~= s.subrange(0, k));
        lemma_mismatch_stays(s, k + 1);
    } else {
        assert(s.subrange(0, k) =~= s);
    }
}

fn side_of(c: char) -> (r: Option<Side>)
    ensures
        r == side_spec(c),
{
    match c {
        '{' => Some(Side::Left(Brace::Curly)),
        '}' => Some(Side::Right(Brace::Curly)),
        '[' => Some(Side::Left(Brace::Bracket)),
        ']' => Some(Side::Right(Brace::Bracket)),
        '(' => Some(Side::Left(Brace::Paren)),
        ')' => Some(Side::Right(Brace::Paren)),
        _ => None,
    }
}

/// Whether every brace of `string` is closed by a brace of its kind, properly nested.
pub fn brackets_are_balanced(string: &str) -> (r: bool)
    ensures
        r == (open_braces(string@) == Some(Seq::<Brace>::empty())),
{
    let cs = crate::text::chars_of(string);
    let mut v: Vec<Brace> = Vec::new();
    let mut i: usize = 0;
    while i < cs.len()
        invariant
            i <= cs@.len(),
            cs@ == string@,
            open_braces(cs@.subrange(0, i as int)) == Some(v@),
        decreases cs@.len() - i,
    {
        let ghost pre = cs@.subrange(0, i + 1);
        proof {
            assert(pre.drop_last() =~= cs@.subrange(0, i as int));
            assert(pre.last() == cs@[i as int]);
        }
        match side_of(cs[i]) {
            Some(Side::Left(b)) => {
                v.push(b);
            },
            Some(Side::Right(b)) => {
                match v.pop() {
                    None => {
                        proof {
                            lemma_mismatch_stays(cs@, i + 1);
                        }
                        return false;
                    },
                    Some(b2) => {
                        if b != b2 {
                            proof {
                                lemma_mismatch_stays(cs@, i + 1);
                            }
                            return false;
                        }
                    },
                }
            },
            None => {},
        }
        i = i + 1;
    }
    proof {
        assert(cs@.subrange(0, cs@.len() as int) =~= cs@);
        if v@.len() == 0 {
            assert(v@ =~= Seq::<Brace>::empty());
        }
    }
    v.len() == 0
}

} // verus!
