//! Identifiers for IR variables, basic-block labels and global symbols.
//!
//! An identifier owns its text; its mathematical value is the character
//! sequence.  A strict lexicographic order over character sequences (by code
//! point) drives the stable, sorted emission order of the printer.

use vstd::prelude::*;

verus! {

/// An identifier: a variable name, a block label or a global symbol.
#[derive(Debug, PartialEq, Eq)]
pub struct Id {
    text: String,
}

impl View for Id {
    type V = Seq<char>;

    closed spec fn view(&self) -> Seq<char> {
        self.text@
    }
}

impl Id {
    /// Wrap a string as an identifier.
    pub fn new(text: String) -> (r: Id)
        ensures
            r@ == text@,
    {
        Id { text }
    }

    /// Build an identifier from a string slice.
    pub fn from_strslice(text: &str) -> (r: Id)
        ensures
            r@ == text@,
    {
        Id { text: String::from_str(text) }
    }

    /// The identifier's text.
    pub fn as_str(&self) -> (r: &str)
        ensures
            r@ == self@,
    {
        self.text.as_str()
    }

    /// Character-wise equality.
    pub fn eq_id(&self, other: &Id) -> (r: bool)
        ensures
            r == (self@ == other@),
    {
        self.text == other.text
    }

    /// Strict lexicographic comparison: does `self` come before `other`?
    pub fn lt_id(&self, other: &Id) -> (r: bool)
        ensures
            r == chars_lt(self@, other@),
    {
        let a = self.text.as_str();
        let b = other.text.as_str();
        let alen = a.unicode_len();
        let blen = b.unicode_len();
        let mut i: usize = 0;
        loop
            invariant
                i <= alen,
                i <= blen,
                alen == a@.len(),
                blen == b@.len(),
                a@ == self@,
                b@ == other@,
                a@.subrange(0, i as int) == b@.subrange(0, i as int),
            decreases alen - i,
        {
            if i == blen {
                // b is a prefix of a (or equal): a is not before b
                proof {
                    lemma_chars_lt_after_common_prefix(a@, b@, i as nat);
                }
                return false;
            }
            if i == alen {
                // a is a strict prefix of b
                proof {
                    lemma_chars_lt_after_common_prefix(a@, b@, i as nat);
                }
                return true;
            }
            let ca = a.get_char(i);
            let cb = b.get_char(i);
            let na = ca as u32;
            let nb = cb as u32;
            if na < nb {
                proof {
                    lemma_chars_lt_after_common_prefix(a@, b@, i as nat);
                }
                return true;
            }
            if na > nb {
                proof {
                    lemma_chars_lt_after_common_prefix(a@, b@, i as nat);
                }
                return false;
            }
            proof {
                assert(ca == cb) by {
                    vstd::utf8::char_u32_cast(ca, na);
                    vstd::utf8::char_u32_cast(cb, nb);
                }
                assert(a@.subrange(0, i + 1) =~= b@.subrange(0, i + 1)) by {
                    assert(forall|j: int| 0 <= j < i ==> a@.subrange(0, i as int)[j] == b@.subrange(0, i as int)[j]);
                    assert(a@[i as int] == b@[i as int]);
                }
            }
            i = i + 1;
        }
    }
}

impl Id {
    /// Is this identifier well-formed (see [`id_wf`])?
    pub fn is_wf(&self) -> (r: bool)
        ensures
            r == id_wf(self@),
    {
        let s = self.text.as_str();
        let n = s.unicode_len();
        if n == 0 {
            return false;
        }
        let mut i: usize = 0;
        while i < n
            invariant
                i <= n,
                n == s@.len(),
                s@ == self@,
                n > 0,
                i > 0 ==> is_id_start_char(s@[0]),
                forall|j: int| 0 <= j < i ==> is_id_char(#[trigger] s@[j]),
            decreases n - i,
        {
            let c = s.get_char(i);
            let u = c as u32;
            let start_ok = (97 <= u && u <= 122) || (65 <= u && u <= 90) || u == 95;
            let cont_ok = start_ok || (48 <= u && u <= 57);
            proof {
                assert(('a' as u32) == 97 && ('z' as u32) == 122);
                assert(('A' as u32) == 65 && ('Z' as u32) == 90);
                assert(('0' as u32) == 48 && ('9' as u32) == 57);
                assert(('_' as u32) == 95);
                if u == 95 {
                    vstd::utf8::char_u32_cast(c, u);
                    vstd::utf8::char_u32_cast('_', 95u32);
                    assert(c == '_');
                }
                assert(start_ok == is_id_start_char(c));
                assert(cont_ok == is_id_char(c));
            }
            if i == 0 {
                if !start_ok {
                    return false;
                }
            } else {
                if !cont_ok {
                    return false;
                }
            }
            i = i + 1;
        }
        true
    }
}

impl Clone for Id {
    fn clone(&self) -> (r: Self)
        ensures
            r@ == self@,
    {
        Id { text: self.text.clone() }
    }
}

/// May a character open an identifier?  Letters and the underscore.
pub open spec fn is_id_start_char(c: char) -> bool {
    ||| ('a' as u32) <= (c as u32) <= ('z' as u32)
    ||| ('A' as u32) <= (c as u32) <= ('Z' as u32)
    ||| c == '_'
}

/// May a character continue an identifier?  Letters, digits and the
/// underscore.
pub open spec fn is_id_char(c: char) -> bool {
    ||| is_id_start_char(c)
    ||| ('0' as u32) <= (c as u32) <= ('9' as u32)
}

/// A well-formed identifier: non-empty, an opening character, then
/// identifier characters only.  In particular a well-formed identifier never
/// holds a dot, which keeps mangled composite labels unambiguous.
pub open spec fn id_wf(s: Seq<char>) -> bool {
    &&& s.len() > 0
    &&& is_id_start_char(s[0])
    &&& forall|j: int| 0 <= j < s.len() ==> is_id_char(#[trigger] s[j])
}

/// Strict lexicographic order on character sequences, comparing code points.
pub open spec fn chars_lt(a: Seq<char>, b: Seq<char>) -> bool
    decreases a.len(),
{
    if b.len() == 0 {
        false
    } else if a.len() == 0 {
        true
    } else if (a[0] as u32) < (b[0] as u32) {
        true
    } else if a[0] != b[0] {
        false
    } else {
        chars_lt(a.skip(1), b.skip(1))
    }
}

/// After a common prefix of length `i`, the order of `a` and `b` is decided
/// by the next position (or by which sequence ends first).
pub proof fn lemma_chars_lt_after_common_prefix(a: Seq<char>, b: Seq<char>, i: nat)
    requires
        i <= a.len(),
        i <= b.len(),
        a.subrange(0, i as int) == b.subrange(0, i as int),
    ensures
        i == b.len() ==> !chars_lt(a, b),
        i == a.len() && i < b.len() ==> chars_lt(a, b),
        i < a.len() && i < b.len() && (a[i as int] as u32) < (b[i as int] as u32) ==> chars_lt(a, b),
        i < a.len() && i < b.len() && (a[i as int] as u32) > (b[i as int] as u32) ==> !chars_lt(a, b),
    decreases i,
{
    if i == 0 {
        if 0 < a.len() && 0 < b.len() && (a[0] as u32) != (b[0] as u32) {
            assert(a[0] != b[0]);
        }
    } else {
        assert(a.len() > 0 && b.len() > 0);
        assert(a.subrange(0, i as int)[0] == a[0]);
        assert(a[0] == b[0]);
        assert((a[0] as u32) >= (b[0] as u32) && (a[0] as u32) <= (b[0] as u32));
        assert(a.skip(1).subrange(0, i - 1) =~= b.skip(1).subrange(0, i - 1)) by {
            assert(forall|j: int| 0 <= j < i - 1 ==> a.skip(1)[j] == a.subrange(0, i as int)[j + 1]);
            assert(forall|j: int| 0 <= j < i - 1 ==> b.skip(1)[j] == b.subrange(0, i as int)[j + 1]);
        }
        lemma_chars_lt_after_common_prefix(a.skip(1), b.skip(1), (i - 1) as nat);
        assert(chars_lt(a, b) == chars_lt(a.skip(1), b.skip(1)));
        if i < a.len() && i < b.len() {
            assert(a.skip(1)[i - 1] == a[i as int]);
            assert(b.skip(1)[i - 1] == b[i as int]);
        }
    }
}

/// Two sequences that neither precede one another are equal (totality).
pub proof fn lemma_chars_lt_connected(a: Seq<char>, b: Seq<char>)
    requires
        !chars_lt(a, b),
        !chars_lt(b, a),
    ensures
        a == b,
    decreases a.len(),
{
    if b.len() == 0 {
        assert(a.len() == 0);
        assert(a =~= b);
    } else if a.len() == 0 {
        assert(false);
    } else {
        assert(a[0] as u32 == b[0] as u32);
        vstd::utf8::char_u32_cast(a[0], a[0] as u32);
        vstd::utf8::char_u32_cast(b[0], b[0] as u32);
        assert(a[0] == b[0]);
        lemma_chars_lt_connected(a.skip(1), b.skip(1));
        assert(a =~= b) by {
            assert(forall|j: int| 1 <= j < a.len() ==> a[j] == a.skip(1)[j - 1]);
            assert(forall|j: int| 1 <= j < b.len() ==> b[j] == b.skip(1)[j - 1]);
        }
    }
}

/// The order is transitive.
pub proof fn lemma_chars_lt_trans(a: Seq<char>, b: Seq<char>, c: Seq<char>)
    requires
        chars_lt(a, b),
        chars_lt(b, c),
    ensures
        chars_lt(a, c),
    decreases a.len() + b.len() + c.len(),
{
    if c.len() == 0 {
        assert(false);
    } else if b.len() == 0 {
        assert(false);
    } else if a.len() == 0 {
    } else {
        if (a[0] as u32) < (b[0] as u32) {
            if (b[0] as u32) < (c[0] as u32) {
            } else {
                assert(b[0] == c[0]);
                assert((a[0] as u32) < (c[0] as u32));
            }
        } else {
            assert(a[0] == b[0]);
            if (b[0] as u32) < (c[0] as u32) {
                assert((a[0] as u32) < (c[0] as u32));
            } else {
                assert(b[0] == c[0]);
                assert(a[0] == c[0]);
                lemma_chars_lt_trans(a.skip(1), b.skip(1), c.skip(1));
            }
        }
    }
}

} // verus!
