use vstd::prelude::*;
use vstd::string::StringExecFns;
use vstd::string::StrSliceExecFns;

verus! {

/// The Unicode uppercase mapping of one character, which may be several
/// characters long.
pub uninterp spec fn upper_chars_of(c: char) -> Seq<char>;

/// Relies on char::to_uppercase: the Unicode uppercase mapping, a function
/// of the character alone.
#[verifier::external_body]
fn char_to_uppercase(c: char) -> (r: String)
    ensures
        r@ == upper_chars_of(c),
{
    c.to_uppercase().collect()
}

/// Relies on char::to_string: a string of exactly that one character.
#[verifier::external_body]
fn char_to_string(c: char) -> (r: String)
    ensures
        r@ == seq![c],
{
    c.to_string()
}

pub open spec fn is_ascii_char(c: char) -> bool {
    (c as u32) < 128
}

/// The first character replaced by its uppercase mapping, the rest kept.
pub open spec fn capitalize_spec(s: Seq<char>) -> Seq<char> {
    if s.len() == 0 {
        Seq::empty()
    } else {
        upper_chars_of(s[0]) + s.subrange(1, s.len() as int)
    }
}

/// The characters outside the ASCII range removed, the rest in order.
pub open spec fn ascii_filter_spec(s: Seq<char>) -> Seq<char>
    decreases s,
{
    if s.len() == 0 {
        Seq::empty()
    } else {
        ascii_filter_spec(s.drop_last()) + if is_ascii_char(s.last()) {
            seq![s.last()]
        } else {
            Seq::empty()
        }
    }
}

/// Small casing and cleaning helpers on strings.
pub trait StringUtils: View<V = Seq<char>> {
    /// Uppercase the first character.
    fn capitalize(&self) -> (r: String)
        ensures
            r@ == capitalize_spec(self@),
    ;

    /// Keep only the ASCII characters.
    fn to_ascii(&self) -> (r: String)
        ensures
            r@ == ascii_filter_spec(self@),
    ;
}

impl StringUtils for String {
    fn capitalize(&self) -> (r: String) {
        let s = self.as_str();
        let n = s.unicode_len();
        if n == 0 {
            let r = String::new();
            proof {
                assert(r@ =~= capitalize_spec(self@));
            }
            r
        } else {
            let first = s.get_char(0);
            let mut r = char_to_uppercase(first);
            let rest = s.substring_char(1, n);
            r.append(rest);
            r
        }
    }

    #[verifier::loop_isolation(false)]
    fn to_ascii(&self) -> (r: String) {
        let s = self.as_str();
        let n = s.unicode_len();
        let mut r = String::new();
        let mut i: usize = 0;
        proof {
            assert(r@ =~= ascii_filter_spec(self@.take(0)));
        }
        while i < n
            invariant
                0 <= i <= n,
                n == self@.len(),
                s@ == self@,
                r@ == ascii_filter_spec(self@.take(i as int)),
            decreases n - i,
        {
            proof {
                assert(self@.take(i + 1).drop_last() =~= self@.take(i as int));
                assert(self@.take(i + 1).last() == self@[i as int]);
            }
            let c = s.get_char(i);
            if (c as u32) < 128 {
                let piece = char_to_string(c);
                r.append(piece.as_str());
                proof {
                    assert(r@ =~= ascii_filter_spec(self@.take(i + 1)));
                }
            } else {
                proof {
                    assert(r@ =~= ascii_filter_spec(self@.take(i + 1)));
                }
            }
            i += 1;
        }
        proof {
            assert(self@.take(self@.len() as int) =~= self@);
        }
        r
    }
}

} // verus!
