//! Reading the channel to open from what the user typed.

use vstd::prelude::*;
use vstd::string::*;

use crate::text::{is_ascii_digit, substring};

verus! {

/// Whether a character is numeric in Unicode's sense (`char::is_numeric`).
pub uninterp spec fn numeric(c: char) -> bool;

/// `char::is_numeric`: the general categories Nd, Nl and No. The result is
/// a function of the character; of the ASCII digits the documentation says
/// plainly that they are numeric.
#[verifier::external_body]
fn char_is_numeric(c: char) -> (r: bool)
    ensures
        r == numeric(c),
        is_ascii_digit(c) ==> r,
{
    c.is_numeric()
}

/// What follows the last `/` of `s` (all of `s` if there is none).
pub open spec fn after_last_slash(s: Seq<char>) -> Seq<char>
    decreases s.len(),
{
    if s.len() == 0 {
        s
    } else if s.last() == '/' {
        Seq::empty()
    } else {
        after_last_slash(s.drop_last()).push(s.last())
    }
}

/// The channel named by a channel link or id: the part after the last `/`,
/// if it is not empty and all numeric.
pub open spec fn channel_id_of(input: Seq<char>) -> Option<Seq<char>> {
    let id = after_last_slash(input);
    if id.len() > 0 && forall|i: int| 0 <= i < id.len() ==> numeric(#[trigger] id[i]) {
        Some(id)
    } else {
        None
    }
}

/// Reads the channel id from a channel link or a bare id.
pub fn parse_channel_id(input: &str) -> (r: Option<String>)
    ensures
        match r {
            Some(id) => channel_id_of(input@) == Some(id@),
            None => channel_id_of(input@) is None,
        },
{
    let n: usize = input.unicode_len();
    let mut j: usize = n;
    assert(input@.subrange(n as int, n as int) =~= Seq::<char>::empty());
    assert(input@.take(n as int) =~= input@);
    while j > 0 && input.get_char(j - 1) != '/'
        invariant
            n == input@.len(),
            j <= n,
            after_last_slash(input@) == after_last_slash(input@.take(j as int)) + input@.subrange(j as int, n as int),
        decreases j,
    {
        let ghost t = input@.take(j as int);
        assert(t.drop_last() =~= input@.take(j as int - 1));
        assert(after_last_slash(t) == after_last_slash(t.drop_last()).push(input@[j - 1]));
        assert(after_last_slash(t.drop_last()).push(input@[j - 1]) + input@.subrange(j as int, n as int)
            =~= after_last_slash(t.drop_last()) + input@.subrange(j as int - 1, n as int));
        j = j - 1;
    }
    proof {
        if j > 0 {
            assert(after_last_slash(input@.take(j as int)) == Seq::<char>::empty());
        } else {
            assert(input@.take(0) =~= Seq::<char>::empty());
        }
        assert(after_last_slash(input@) =~= input@.subrange(j as int, n as int));
    }
    if j == n {
        return None;
    }
    let mut k: usize = j;
    while k < n
        invariant
            n == input@.len(),
            j <= k <= n,
            after_last_slash(input@) == input@.subrange(j as int, n as int),
            forall|i: int| j <= i < k ==> numeric(#[trigger] input@[i]),
        decreases n - k,
    {
        if !char_is_numeric(input.get_char(k)) {
            let ghost id = input@.subrange(j as int, n as int);
            assert(!numeric(id[k - j]));
            return None;
        }
        k = k + 1;
    }
    let id: String = substring(input, j, n);
    assert(forall|i: int| 0 <= i < id@.len() ==> #[trigger] id@[i] == input@[j + i]);
    Some(id)
}

proof fn lemma_after_last_slash_has_no_slash(s: Seq<char>)
    ensures
        forall|i: int| 0 <= i < after_last_slash(s).len() ==> after_last_slash(s)[i] != '/',
        (forall|i: int| 0 <= i < s.len() ==> s[i] != '/') ==> after_last_slash(s) == s,
    decreases s.len(),
{
    if s.len() > 0 && s.last() != '/' {
        lemma_after_last_slash_has_no_slash(s.drop_last());
        let r = after_last_slash(s.drop_last());
        assert forall|i: int| 0 <= i < r.push(s.last()).len() implies r.push(s.last())[i] != '/' by {
            if i < r.len() {
                assert(r.push(s.last())[i] == r[i]);
            }
        }
        if forall|i: int| 0 <= i < s.len() ==> s[i] != '/' {
            assert forall|i: int| 0 <= i < s.drop_last().len() implies s.drop_last()[i] != '/' by {
                assert(s.drop_last()[i] == s[i]);
            }
            assert(r.push(s.last()) =~= s);
        }
    }
}

/// The id read from a link reads back as itself, so a saved id opens the
/// same channel as the link it came from.
pub proof fn law_channel_id_round_trip(input: Seq<char>)
    ensures
        channel_id_of(input) matches Some(id) ==> channel_id_of(id) == Some(id),
{
    lemma_after_last_slash_has_no_slash(input);
    let id = after_last_slash(input);
    lemma_after_last_slash_has_no_slash(id);
}

} // verus!
