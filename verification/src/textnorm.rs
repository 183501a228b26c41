use vstd::prelude::*;

verus! {

/// The locale normalization applied to a measurement value before numeric
/// parsing: every comma decimal separator becomes a period; every other
/// character stays as it is.
pub open spec fn normalized_decimal(s: Seq<char>) -> Seq<char> {
    s.map_values(|c: char| if c == ',' { '.' } else { c })
}

/// Relies on String::push: appends exactly the given character.
#[verifier::external_body]
pub(crate) fn push_char(s: &mut String, c: char)
    ensures
        final(s)@ == old(s)@.push(c),
{
    s.push(c);
}

/// Rewrites a comma-decimal text to period-decimal form, the reusable
/// transform the schema reconciler is built around.
pub fn normalize_decimal_text(s: &str) -> (r: String)
    ensures
        r@ == normalized_decimal(s@),
{
    let n = s.unicode_len();
    let mut out = String::new();
    let mut i: usize = 0;
    while i < n
        invariant
            i <= n,
            n == s@.len(),
            out@ == normalized_decimal(s@.take(i as int)),
        decreases n - i,
    {
        let c = s.get_char(i);
        if c == ',' {
            push_char(&mut out, '.');
        } else {
            push_char(&mut out, c);
        }
        proof {
            assert(normalized_decimal(s@.take(i + 1)) =~= normalized_decimal(
                s@.take(i as int),
            ).push(if s@[i as int] == ',' { '.' } else { s@[i as int] }));
        }
        i += 1;
    }
    proof {
        assert(s@.take(n as int) =~= s@);
    }
    out
}

/// Normalization never changes a text that holds no comma, so a source whose
/// values are already period-decimal or plainly numeric passes through the
/// transform unaltered.
pub proof fn lemma_normalize_no_comma_identity(s: Seq<char>)
    requires
        !s.contains(','),
    ensures
        normalized_decimal(s) == s,
{
    assert forall|i: int| 0 <= i < s.len() implies s[i] != ',' by {
        if s[i] == ',' {
            assert(s.contains(','));
        }
    }
    assert(normalized_decimal(s) =~= s);
}

/// The comma-to-period transform is idempotent: applying it to an already
/// normalized text changes nothing.
pub proof fn lemma_normalize_idempotent(s: Seq<char>)
    ensures
        normalized_decimal(normalized_decimal(s)) == normalized_decimal(s),
{
    assert(normalized_decimal(normalized_decimal(s)) =~= normalized_decimal(s));
}

} // verus!
