use vstd::prelude::*;

verus! {

/// Values read from a prefix of a character sequence.
pub trait Parse: Sized {
    /// What reading at `pos` of `s` gives: the value and the position after it.
    spec fn parse_at(s: Seq<char>, pos: int) -> Option<(Self, int)>;

    /// Reads one value starting at `pos`.
    fn parse(s: &[char], pos: usize) -> (r: Option<(Self, usize)>)
        requires
            pos <= s@.len(),
        ensures
            match r {
                Some((v, end)) => Self::parse_at(s@, pos as int) == Some((v, end as int)),
                None => Self::parse_at(s@, pos as int) is None,
            },
    ;
}

/// The characters of a string, in order.
pub fn chars_of(text: &str) -> (r: Vec<char>)
    ensures
        r@ == text@,
{
    let n = text.unicode_len();
    let mut out: Vec<char> = Vec::new();
    let mut i: usize = 0;
    while i < n
        invariant
            n == text@.len(),
            i <= n,
            out@ == text@.subrange(0, i as int),
        decreases n - i,
    {
        out.push(text.get_char(i));
        i = i + 1;
    }
    assert(out@ =~= text@);
    out
}

} // verus!
