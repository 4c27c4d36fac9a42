//! Event naming of the legacy message transport: each stub is emitted under
//! its type name qualified by the transport's namespace prefix.

use vstd::prelude::*;

use crate::json::{chars_vec, string_from_chars};

verus! {

pub const MESSAGE_TYPE_PREFIX: &'static str = "com.amazon.whitewater.auxproxy.pbuffer";

/// The text after the last colon.
pub open spec fn after_last_colon(s: Seq<char>) -> Seq<char>
    decreases s.len(),
{
    if s.len() == 0 {
        s
    } else if s.last() == ':' {
        Seq::empty()
    } else {
        after_last_colon(s.drop_last()).push(s.last())
    }
}

proof fn lemma_after_last_colon(s: Seq<char>, j: int)
    requires
        0 <= j < s.len(),
        s[j] == ':',
        forall|k: int| j < k < s.len() ==> s[k] != ':',
    ensures
        after_last_colon(s) == s.skip(j + 1),
    decreases s.len(),
{
    if j == s.len() - 1 {
        assert(s.last() == ':');
        assert(s.skip(j + 1) =~= Seq::<char>::empty());
    } else {
        assert(s.last() != ':');
        assert(s.drop_last()[j] == ':');
        assert(forall|k: int| j < k < s.drop_last().len() ==> #[trigger] s.drop_last()[k] != ':');
        lemma_after_last_colon(s.drop_last(), j);
        assert(s.drop_last().skip(j + 1).push(s.last()) =~= s.skip(j + 1));
    }
}

/// The unqualified name of a stub: the text after the last colon of its full
/// type path.
pub fn get_message_type(full_name: &str) -> (r: String)
    requires
        exists|i: int| 0 <= i < full_name@.len() && full_name@[i] == ':',
    ensures
        r@ == after_last_colon(full_name@),
{
    let cs = chars_vec(full_name);
    let n = cs.len();
    let mut j: usize = n;
    while j > 0
        invariant
            0 <= j <= n,
            n == cs@.len(),
            cs@ == full_name@,
            forall|k: int| j <= k < n ==> cs@[k] != ':',
        decreases j,
    {
        if cs[j - 1] == ':' {
            proof {
                lemma_after_last_colon(cs@, j - 1);
            }
            let mut out: Vec<char> = Vec::new();
            let mut k: usize = j;
            while k < n
                invariant
                    j <= k <= n,
                    n == cs@.len(),
                    out@ == cs@.subrange(j as int, k as int),
                decreases n - k,
            {
                out.push(cs[k]);
                proof {
                    assert(cs@.subrange(j as int, k + 1 as int) =~= cs@.subrange(
                        j as int,
                        k as int,
                    ).push(cs@[k as int]));
                }
                k = k + 1;
            }
            proof {
                assert(cs@.subrange(j as int, n as int) =~= cs@.skip(j as int));
            }
            return string_from_chars(&out);
        }
        j = j - 1;
    }
    proof {
        let i = choose|i: int| 0 <= i < full_name@.len() && full_name@[i] == ':';
        assert(cs@[i] != ':');
        assert(false);
    }
    unreached()
}

/// The fully qualified event name a stub is emitted under.
pub fn message_event_name(message_type: &str) -> (r: String)
    ensures
        r@ == MESSAGE_TYPE_PREFIX@ + "."@ + message_type@,
{
    let mut out = String::from_str(MESSAGE_TYPE_PREFIX);
    out.append(".");
    out.append(message_type);
    out
}

} // verus!
