//! Diagnostic texts as the bytes that generated code prints.
use vstd::prelude::*;
use vstd::string::StringSliceAdditionalSpecFns;
use vstd::utf8::encode_utf8;

verus! {

/// The bytes of an account name.
pub open spec fn name_bytes(name: String) -> Seq<u8> {
    encode_utf8(name@)
}

/// Appends the bytes of `s` to `out`.
pub fn push_bytes(out: &mut Vec<u8>, s: &[u8])
    ensures
        final(out)@ == old(out)@ + s@,
{
    let mut i: usize = 0;
    while i < s.len()
        invariant
            i <= s@.len(),
            out@ == old(out)@ + s@.subrange(0, i as int),
        decreases s@.len() - i,
    {
        out.push(s[i]);
        i = i + 1;
        assert(out@ =~= old(out)@ + s@.subrange(0, i as int));
    }
    assert(s@.subrange(0, s@.len() as int) =~= s@);
}

/// The bytes of a literal text.
pub fn literal_bytes(s: &str) -> (r: Vec<u8>)
    ensures
        r@ == s.spec_bytes(),
{
    vstd::slice::slice_to_vec(s.as_bytes())
}

/// `prefix`, then the name's bytes, then `suffix`.
pub fn quote_name(prefix: &str, name: &String, suffix: &str) -> (r: Vec<u8>)
    ensures
        r@ == prefix.spec_bytes() + name_bytes(*name) + suffix.spec_bytes(),
{
    let mut r = literal_bytes(prefix);
    push_bytes(&mut r, name.as_str().as_bytes());
    push_bytes(&mut r, suffix.as_bytes());
    r
}

} // verus!
