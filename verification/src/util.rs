use vstd::prelude::*;
use crate::strutil::chars_to_string;

verus! {

/// Quote a string for PowerShell: wrap in single quotes, doubling any
/// single quote inside.
pub open spec fn spec_ps_quote(s: Seq<char>) -> Seq<char>
    decreases s.len(),
{
    if s.len() == 0 {
        Seq::empty()
    } else {
        let rest = spec_ps_quote(s.drop_first());
        if s[0] == '\'' {
            seq!['\'', '\''] + rest
        } else {
            seq![s[0]] + rest
        }
    }
}

pub fn ps_quote(input: &str) -> (r: String)
    ensures
        r@ == seq!['\''] + spec_ps_quote(input@) + seq!['\''],
{
    let n = input.unicode_len();
    let mut out: Vec<char> = Vec::new();
    out.push('\'');
    let mut i: usize = 0;
    while i < n
        invariant
            n == input@.len(),
            i <= n,
            out@ == seq!['\''] + spec_ps_quote(input@.take(i as int)),
        decreases n - i,
    {
        let c = input.get_char(i);
        if c == '\'' {
            out.push('\'');
            out.push('\'');
        } else {
            out.push(c);
        }
        proof {
            lemma_ps_quote_snoc(input@, i as int);
        }
        i = i + 1;
    }
    proof {
        assert(input@.take(n as int) =~= input@);
    }
    out.push('\'');
    chars_to_string(&out)
}

proof fn lemma_ps_quote_snoc(s: Seq<char>, i: int)
    requires
        0 <= i < s.len(),
    ensures
        spec_ps_quote(s.take(i + 1)) == spec_ps_quote(s.take(i)) + (if s[i] == '\'' {
            seq!['\'', '\'']
        } else {
            seq![s[i]]
        }),
    decreases i,
{
    let a = s.take(i + 1);
    let b = s.take(i);
    if i == 0 {
        assert(b =~= Seq::<char>::empty());
        assert(a.drop_first() =~= Seq::<char>::empty());
        assert(spec_ps_quote(a) =~= spec_ps_quote(b) + (if s[i] == '\'' {
            seq!['\'', '\'']
        } else {
            seq![s[i]]
        }));
    } else {
        lemma_ps_quote_snoc(s.drop_first(), i - 1);
        assert(a.drop_first() =~= s.drop_first().take(i));
        assert(b.drop_first() =~= s.drop_first().take(i - 1));
        assert(spec_ps_quote(a) =~= spec_ps_quote(b) + (if s[i] == '\'' {
            seq!['\'', '\'']
        } else {
            seq![s[i]]
        }));
    }
}

} // verus!
