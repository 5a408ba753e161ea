//! Joining a server: the fields of a server option, the nickname, and the notice that tells
//! that the channel has been joined.
use vstd::prelude::*;

use crate::text::{chars_of, decimal, push_char, push_decimal, string_of};

verus! {

/// One step of reading `s` left to right into the fields separated by `", "`: the fields
/// completed so far and the field being read.
pub open spec fn field_step(acc: (Seq<Seq<char>>, Seq<char>), c: char) -> (Seq<Seq<char>>, Seq<char>) {
    if c == ' ' && acc.1.len() > 0 && acc.1.last() == ',' {
        (acc.0.push(acc.1.drop_last()), Seq::empty())
    } else {
        (acc.0, acc.1.push(c))
    }
}

/// The completed fields of `s` and the field still being read at its end.
pub open spec fn field_state(s: Seq<char>) -> (Seq<Seq<char>>, Seq<char>)
    decreases s.len(),
{
    if s.len() == 0 {
        (Seq::empty(), Seq::empty())
    } else {
        field_step(field_state(s.drop_last()), s.last())
    }
}

/// The pieces of `s` between the occurrences of `", "`, found from the left (what
/// `str::split(", ")` yields): always at least one piece.
pub open spec fn fields(s: Seq<char>) -> Seq<Seq<char>> {
    let st = field_state(s);
    st.0.push(st.1)
}

/// Splits a server option such as `"irc.example.net, #channel, @Search"` into its fields: the
/// server, the channel and the search command.
pub fn option_fields(option: &str) -> (f: Vec<String>)
    ensures
        f.deep_view() == fields(option@),
{
    let cs = chars_of(option);
    let mut done: Vec<String> = Vec::new();
    let mut cur: Vec<char> = Vec::new();
    let mut i: usize = 0;
    while i < cs.len()
        invariant
            i <= cs.len(),
            cs@ == option@,
            (done.deep_view(), cur@) == field_state(cs@.take(i as int)),
        decreases cs.len() - i,
    {
        let c = cs[i];
        proof {
            assert(cs@.take(i + 1).drop_last() =~= cs@.take(i as int));
        }
        let ghost before = done.deep_view();
        if c == ' ' && cur.len() > 0 && cur[cur.len() - 1] == ',' {
            cur.pop();
            let field = string_of(&cur);
            cur = Vec::new();
            done.push(field);
            assert(done.deep_view() =~= before.push(field@));
        } else {
            cur.push(c);
        }
        i += 1;
    }
    assert(cs@.take(cs@.len() as int) =~= cs@);
    let ghost before = done.deep_view();
    let field = string_of(&cur);
    done.push(field);
    assert(done.deep_view() =~= before.push(field@));
    done
}

/// Whether `p` occurs in `s` starting at index `i`.
pub open spec fn occurs_at(s: Seq<char>, p: Seq<char>, i: int) -> bool {
    0 <= i && i + p.len() <= s.len() && s.subrange(i, i + p.len()) == p
}

/// Whether `p` occurs in `s` (what `str::contains` tests for a string pattern).
pub open spec fn contains(s: Seq<char>, p: Seq<char>) -> bool {
    exists|i: int| occurs_at(s, p, i)
}

/// Whether `p` occurs in `s` starting at index `i`.
fn occurs_at_index(s: &Vec<char>, p: &Vec<char>, i: usize) -> (r: bool)
    requires
        i + p.len() <= s.len(),
    ensures
        r == occurs_at(s@, p@, i as int),
{
    let mut k: usize = 0;
    let mut same = true;
    assert(s@.subrange(i as int, i as int) =~= p@.take(0));
    while k < p.len()
        invariant
            i + p.len() <= s.len(),
            k <= p.len(),
            same == (s@.subrange(i as int, i + k) == p@.take(k as int)),
        decreases p.len() - k,
    {
        if s[i + k] != p[k] {
            same = false;
        }
        proof {
            assert(s@.subrange(i as int, i + k + 1) =~= s@.subrange(i as int, i + k).push(
                s@[i + k],
            ));
            assert(p@.take(k + 1) =~= p@.take(k as int).push(p@[k as int]));
            if s@.subrange(i as int, i + k + 1) == p@.take(k + 1) {
                assert(s@.subrange(i as int, i + k + 1)[k as int] == p@.take(k + 1)[k as int]);
                assert(s@.subrange(i as int, i + k) =~= s@.subrange(i as int, i + k + 1).drop_last());
                assert(p@.take(k as int) =~= p@.take(k + 1).drop_last());
            }
        }
        k += 1;
    }
    assert(p@.take(p.len() as int) =~= p@);
    same
}

/// Whether `p` occurs in `s`.
pub fn contains_str(s: &str, p: &str) -> (r: bool)
    ensures
        r == contains(s@, p@),
{
    let sc = chars_of(s);
    let pc = chars_of(p);
    if pc.len() > sc.len() {
        assert forall|i: int| !occurs_at(s@, p@, i) by {}
        return false;
    }
    let last: usize = sc.len() - pc.len();
    let mut i: usize = 0;
    while i < last
        invariant
            sc@ == s@,
            pc@ == p@,
            last == sc.len() - pc.len(),
            i <= last,
            forall|j: int| 0 <= j < i ==> !occurs_at(s@, p@, j),
        decreases last - i,
    {
        if occurs_at_index(&sc, &pc, i) {
            return true;
        }
        i += 1;
    }
    let r = occurs_at_index(&sc, &pc, last);
    assert forall|j: int| !occurs_at(s@, p@, j) || j == last || r by {}
    r
}

/// Whether a notice tells that the channel has been joined: it holds `"Welcome to #ebooks"`.
pub fn is_welcome(notice: &str) -> (r: bool)
    ensures
        r == contains(notice@, "Welcome to #ebooks"@),
{
    contains_str(notice, "Welcome to #ebooks")
}

/// The nickname of a session: `RBP` and the decimal digits of `n`.
pub fn nickname(n: u16) -> (name: String)
    ensures
        name@ == seq!['R', 'B', 'P'] + decimal(n as nat),
{
    let mut name = String::new();
    push_char(&mut name, 'R');
    push_char(&mut name, 'B');
    push_char(&mut name, 'P');
    push_decimal(&mut name, n as u64);
    assert(seq!['R', 'B', 'P'] =~= Seq::<char>::empty().push('R').push('B').push('P'));
    name
}

/// Whether waiting for a reply has timed out: a timeout of zero never does, another one does
/// once at least that many whole seconds have passed.
pub fn timed_out(timeout: u64, elapsed_secs: u64) -> (r: bool)
    ensures
        r == (timeout != 0 && elapsed_secs >= timeout),
{
    timeout != 0 && elapsed_secs >= timeout
}

} // verus!
