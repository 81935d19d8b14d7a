use vstd::prelude::*;
use vstd::string::StrSliceExecFns;

verus! {

/// One occurrence of `pat` starts at position `t` of `s`.
pub open spec fn matches_at(s: Seq<char>, pat: Seq<char>, t: int) -> bool {
    0 <= t && t + pat.len() <= s.len() && s.subrange(t, t + pat.len()) == pat
}

/// `pat` occurs somewhere in `s`.
pub open spec fn has_match(s: Seq<char>, pat: Seq<char>) -> bool {
    exists|t: int| matches_at(s, pat, t)
}

/// `t` is the position of the first occurrence of `pat` in `s`.
pub open spec fn is_first_match(s: Seq<char>, pat: Seq<char>, t: int) -> bool {
    matches_at(s, pat, t) && forall|u: int| 0 <= u < t ==> !matches_at(s, pat, u)
}

/// Wherever `pat` occurs at all, it has a first occurrence.
pub proof fn lemma_first_match_exists(s: Seq<char>, pat: Seq<char>)
    requires
        has_match(s, pat),
    ensures
        exists|t: int| is_first_match(s, pat, t),
{
    let t0 = choose|t: int| matches_at(s, pat, t);
    lemma_first_match_below(s, pat, t0);
}

proof fn lemma_first_match_below(s: Seq<char>, pat: Seq<char>, t0: int)
    requires
        matches_at(s, pat, t0),
    ensures
        exists|t: int| is_first_match(s, pat, t),
    decreases t0,
{
    if exists|u: int| 0 <= u < t0 && matches_at(s, pat, u) {
        let u = choose|u: int| 0 <= u < t0 && matches_at(s, pat, u);
        lemma_first_match_below(s, pat, u);
    } else {
        assert(is_first_match(s, pat, t0));
    }
}

/// Something that can locate its next occurrence in a string: the
/// delimiter of a [`StrSplit`]. The occurrence it reports spans the
/// character sequence `pat`, so splitting can cut it out exactly.
pub trait Delimiter {
    /// The characters that one occurrence of this delimiter spans.
    spec fn pat(&self) -> Seq<char>;

    /// The first occurrence of the delimiter in `s`, as the character
    /// positions just before and just after it, or nothing when the
    /// delimiter does not occur in `s`.
    fn find_next(&self, s: &str) -> (r: Option<(usize, usize)>)
        ensures
            r matches Some(pair) ==> (pair.1 == pair.0 + self.pat().len() && is_first_match(
                s@,
                self.pat(),
                pair.0 as int,
            )),
            r is None ==> !has_match(s@, self.pat()),
    ;
}

/// Does `pat` occur in `s` exactly at position `t`?
fn matches_here(pat: &str, s: &str, t: usize) -> (r: bool)
    requires
        t + pat@.len() <= s@.len(),
        s@.len() <= usize::MAX,
    ensures
        r <==> matches_at(s@, pat@, t as int),
{
    let m = pat.unicode_len();
    let mut k: usize = 0;
    while k < m
        invariant
            k <= m,
            m == pat@.len(),
            t + m <= s@.len(),
            s@.len() <= usize::MAX,
            forall|x: int| 0 <= x < k ==> s@[t + x] == pat@[x],
        decreases m - k,
    {
        if s.get_char(t + k) != pat.get_char(k) {
            proof {
                assert(s@.subrange(t as int, t + pat@.len())[k as int] == s@[t + k]);
            }
            return false;
        }
        k = k + 1;
    }
    proof {
        assert(s@.subrange(t as int, t + pat@.len()) =~= pat@);
    }
    true
}

impl Delimiter for &str {
    open spec fn pat(&self) -> Seq<char> {
        (*self)@
    }

    fn find_next(&self, s: &str) -> (r: Option<(usize, usize)>) {
        let n = s.unicode_len();
        let m = self.unicode_len();
        if m > n {
            return None;
        }
        let mut t: usize = 0;
        loop
            invariant
                m <= n,
                n == s@.len(),
                m == (*self)@.len(),
                t <= n - m,
                forall|u: int| 0 <= u < t ==> !matches_at(s@, (*self)@, u),
            decreases n - m - t,
        {
            if matches_here(self, s, t) {
                return Some((t, t + m));
            }
            if t == n - m {
                proof {
                    assert forall|u: int| !matches_at(s@, (*self)@, u) by {
                        if 0 <= u && u + (*self)@.len() <= s@.len() {
                            assert(u <= t);
                        }
                    }
                }
                return None;
            }
            t = t + 1;
        }
    }
}

impl Delimiter for char {
    open spec fn pat(&self) -> Seq<char> {
        seq![*self]
    }

    fn find_next(&self, s: &str) -> (r: Option<(usize, usize)>) {
        let n = s.unicode_len();
        let mut t: usize = 0;
        while t < n
            invariant
                n == s@.len(),
                t <= n,
                forall|u: int| 0 <= u < t ==> !matches_at(s@, seq![*self], u),
            decreases n - t,
        {
            let c = s.get_char(t);
            proof {
                assert(s@.subrange(t as int, t + 1)[0] == s@[t as int]);
                assert(s@.subrange(t as int, t + 1).len() == 1);
                if s@[t as int] == *self {
                    assert(s@.subrange(t as int, t + 1) =~= seq![*self]);
                }
            }
            if c == *self {
                return Some((t, t + 1));
            }
            t = t + 1;
        }
        None
    }
}

/// Splits a borrowed string at every occurrence of a delimiter, handing
/// out the pieces one at a time. The delimiter itself never appears in a
/// piece, a trailing delimiter yields one final empty piece, and a string
/// without any delimiter comes back whole as the only piece.
pub struct StrSplit<'haystack, D> {
    remainder: Option<&'haystack str>,
    delimiter: D,
}

impl<'haystack, D: Delimiter> StrSplit<'haystack, D> {
    /// What is still to be split, if anything.
    pub closed spec fn spec_remainder(&self) -> Option<Seq<char>> {
        match self.remainder {
            Option::None => None,
            Option::Some(s) => Some(s@),
        }
    }

    /// The characters the delimiter spans.
    pub closed spec fn spec_delim(&self) -> Seq<char> {
        self.delimiter.pat()
    }

    /// A splitter whose first piece will come from the front of
    /// `haystack`.
    pub fn new(haystack: &'haystack str, delimiter: D) -> (r: Self)
        ensures
            r.spec_remainder() == Some(haystack@),
            r.spec_delim() == delimiter.pat(),
    {
        Self { remainder: Some(haystack), delimiter }
    }

    /// The next piece: everything up to the first occurrence of the
    /// delimiter in the remainder, or the whole remainder when the
    /// delimiter no longer occurs; exhausted once the remainder is gone.
    pub fn next(&mut self) -> (r: Option<&'haystack str>)
        ensures
            final(self).spec_delim() == old(self).spec_delim(),
            old(self).spec_remainder() is None ==> (r is None && final(self).spec_remainder()
                is None),
            old(self).spec_remainder() matches Some(rem) ==> {
                &&& !has_match(rem, old(self).spec_delim()) ==> (r matches Some(piece) && piece@
                    == rem && final(self).spec_remainder() is None)
                &&& forall|t: int|
                    is_first_match(rem, old(self).spec_delim(), t) ==> (r matches Some(piece)
                        && piece@ == rem.subrange(0, t) && final(self).spec_remainder() == Some(
                        rem.subrange(t + old(self).spec_delim().len(), rem.len() as int),
                    ))
            },
    {
        match self.remainder {
            Option::None => None,
            Option::Some(rem) => {
                match self.delimiter.find_next(rem) {
                    Option::Some((start, end)) => {
                        let rem_len = rem.unicode_len();
                        let piece = rem.substring_char(0, start);
                        self.remainder = Some(rem.substring_char(end, rem_len));
                        Some(piece)
                    },
                    Option::None => {
                        self.remainder = None;
                        Some(rem)
                    },
                }
            },
        }
    }
}

/// The front of `s` up to, and not including, the first occurrence of
/// `c`; the whole of `s` when `c` does not occur in it.
pub fn until_char<'s>(s: &'s str, c: char) -> (r: &'s str)
    ensures
        !has_match(s@, seq![c]) ==> r@ == s@,
        forall|t: int| is_first_match(s@, seq![c], t) ==> r@ == s@.subrange(0, t),
{
    let mut split = StrSplit::new(s, c);
    match split.next() {
        Option::Some(piece) => piece,
        Option::None => {
            proof {
                if has_match(s@, seq![c]) {
                    lemma_first_match_exists(s@, seq![c]);
                }
            }
            s
        },
    }
}

} // verus!
